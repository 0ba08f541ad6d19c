//! What is searched for, what the filesystem says of a candidate, and the
//! verdict on it.

use vstd::prelude::*;

verus! {

/// The kind of entry that a search accepts.
#[derive(Debug, Clone, Copy, PartialEq, Eq, Structural)]
pub enum FindUpKind {
    File,
    Dir,
}

/// What the filesystem said of one candidate path. `is_file` and `is_dir`
/// mean something only where `exists` holds.
#[derive(Debug, Clone, Copy, PartialEq, Eq, Structural)]
pub struct Probe {
    pub exists: bool,
    pub is_file: bool,
    pub is_dir: bool,
}

impl Probe {
    /// The probe that three answers of the filesystem make: whether the path
    /// exists, whether it is a regular file, whether it is a directory. The
    /// last two count only for a path that exists.
    pub open spec fn answered(present: bool, regular: bool, directory: bool) -> Probe {
        Probe { exists: present, is_file: present && regular, is_dir: present && directory }
    }

    /// Makes a probe of the filesystem's three answers on a path.
    pub fn from_answers(present: bool, regular: bool, directory: bool) -> (seen: Probe)
        ensures
            seen == Probe::answered(present, regular, directory),
    {
        Probe { exists: present, is_file: present && regular, is_dir: present && directory }
    }
}

/// The verdict on one candidate path.
#[derive(Debug)]
pub enum FindUpResult {
    /// The candidate matches: this path joins the results of its name.
    Saved(String),
    /// No match here; the name is looked for again further up.
    Continue,
    /// The search for this name ends here; other names go on.
    Stop,
}

/// A verdict as a value of the model: the saved path as text.
pub enum Verdict {
    Saved(Seq<char>),
    Continue,
    Stop,
}

impl View for FindUpResult {
    type V = Verdict;

    open spec fn view(&self) -> Verdict {
        match self {
            FindUpResult::Saved(path) => Verdict::Saved(path@),
            FindUpResult::Continue => Verdict::Continue,
            FindUpResult::Stop => Verdict::Stop,
        }
    }
}

impl FindUpKind {
    /// Whether a candidate with this probe is a match for the kind: it exists
    /// and is a regular file, or a directory, as asked.
    pub open spec fn accepts(self, probe: Probe) -> bool {
        probe.exists && match self {
            FindUpKind::File => probe.is_file,
            FindUpKind::Dir => probe.is_dir,
        }
    }

    /// The verdict of the kind on `candidate` with `probe`: saved where the
    /// probe is accepted, passed over otherwise.
    pub open spec fn verdict(self, candidate: Seq<char>, probe: Probe) -> Verdict {
        if self.accepts(probe) {
            Verdict::Saved(candidate)
        } else {
            Verdict::Continue
        }
    }

    /// The verdict on `candidate`, given what the filesystem said of it: saved
    /// where the probe is accepted, passed over otherwise. It never ends the
    /// search for a name.
    pub fn judge(&self, candidate: String, probe: Probe) -> (verdict: FindUpResult)
        ensures
            verdict@ == self.verdict(candidate@, probe),
    {
        if !probe.exists {
            return FindUpResult::Continue;
        }
        let matches_criteria = match self {
            FindUpKind::File => probe.is_file,
            FindUpKind::Dir => probe.is_dir,
        };
        if matches_criteria {
            FindUpResult::Saved(candidate)
        } else {
            FindUpResult::Continue
        }
    }
}

/// An entry of the wrong kind is never saved: neither something that is no
/// regular file when files are asked for, nor something that is no directory
/// when directories are asked for, nor anything that does not exist.
pub proof fn lemma_wrong_kind_is_rejected(kind: FindUpKind, probe: Probe)
    ensures
        !probe.exists ==> !kind.accepts(probe),
        kind == FindUpKind::File && !probe.is_file ==> !kind.accepts(probe),
        kind == FindUpKind::Dir && !probe.is_dir ==> !kind.accepts(probe),
{
}

} // verus!
