//! The package manager: its kind tag and its command set.

use vstd::prelude::*;
use vstd::string::StrSliceExecFns;
use crate::cmd::PacmanCmd;
use crate::error::ErrorKind;

verus! {

/// The supported package managers.
#[derive(Debug, Clone, Copy, PartialEq, Eq, Structural)]
pub enum ManagerKind {
    Pacman,
}

/// The lowercase name of a manager kind.
pub open spec fn spec_kind_name(kind: ManagerKind) -> Seq<char> {
    match kind {
        ManagerKind::Pacman => "pacman"@,
    }
}

/// ASCII-lowercases one character; any other character is unchanged.
pub open spec fn spec_lower_char(c: char) -> char {
    if 65 <= c as int && c as int <= 90 {
        (((c as int) + 32) as u8) as char
    } else {
        c
    }
}

/// ASCII-lowercases a character sequence.
pub open spec fn spec_lower(s: Seq<char>) -> Seq<char> {
    s.map_values(|c: char| spec_lower_char(c))
}

/// ASCII-lowercases one character.
fn lower_char(c: char) -> (r: char)
    ensures
        r == spec_lower_char(c),
{
    let u = c as u32;
    if 65 <= u && u <= 90 {
        ((u + 32) as u8) as char
    } else {
        c
    }
}

impl ManagerKind {
    /// Parses a manager name, ignoring ASCII case; unknown names are
    /// rejected.
    pub fn from_str(input: &str) -> (r: Result<ManagerKind, ()>)
        ensures
            r == if spec_lower(input@) == "pacman"@ {
                Result::<ManagerKind, ()>::Ok(ManagerKind::Pacman)
            } else {
                Result::<ManagerKind, ()>::Err(())
            },
    {
        proof {
            reveal_strlit("pacman");
        }
        let target = "pacman";
        let n = input.unicode_len();
        if n != target.unicode_len() {
            return Err(());
        }
        let mut k: usize = 0;
        while k < n
            invariant
                0 <= k <= n,
                n == input@.len(),
                n == "pacman"@.len(),
                "pacman"@ == target@,
                forall|m: int| 0 <= m < k ==> spec_lower(input@)[m] == target@[m],
            decreases n - k,
        {
            if lower_char(input.get_char(k)) != target.get_char(k) {
                proof {
                    assert(spec_lower(input@)[k as int] != target@[k as int]);
                }
                return Err(());
            }
            k = k + 1;
        }
        proof {
            assert(spec_lower(input@) =~= "pacman"@);
        }
        Ok(ManagerKind::Pacman)
    }
}

/// A package manager: a kind tag dispatching to its command set.
#[derive(Debug)]
pub struct Manager {
    pub kind: ManagerKind,
    pub cmd: PacmanCmd,
}

/// The command set for a manager kind.
pub fn get_cmd(kind: ManagerKind) -> (cmd: PacmanCmd)
    ensures
        cmd.program@ == "pacman"@,
{
    match kind {
        ManagerKind::Pacman => PacmanCmd::new(),
    }
}

impl Manager {
    /// Builds the manager for an already-detected kind.
    pub fn new(kind: ManagerKind) -> (mgr: Manager)
        ensures
            mgr.kind == kind,
            mgr.cmd.program@ == "pacman"@,
    {
        Manager { kind, cmd: get_cmd(kind) }
    }

    /// Sets the manager kind and its command set.
    fn set_kind(&mut self, kind: ManagerKind)
        ensures
            final(self).kind == kind,
            final(self).cmd.program@ == "pacman"@,
    {
        self.kind = kind;
        self.cmd = get_cmd(kind);
    }

    /// The lowercase name of the configured manager kind.
    pub fn get_kind_lowercase(&self) -> (name: &'static str)
        ensures
            name@ == spec_kind_name(self.kind),
    {
        match self.kind {
            ManagerKind::Pacman => "pacman",
        }
    }

    /// Reconfigures the manager from a caller-supplied name. An unsupported
    /// name is rejected, naming the request and the manager that had been
    /// detected.
    pub fn configure_kind(&mut self, input: &str) -> (r: Result<ManagerKind, ErrorKind>)
        ensures
            spec_lower(input@) == "pacman"@ ==> {
                &&& r == Result::<ManagerKind, ErrorKind>::Ok(ManagerKind::Pacman)
                &&& final(self).kind == ManagerKind::Pacman
                &&& final(self).cmd.program@ == "pacman"@
            },
            spec_lower(input@) != "pacman"@ ==> {
                &&& *final(self) == *old(self)
                &&& r matches Err(e) && e matches ErrorKind::UnsupportedManager(req, det)
                    && req@ == input@ && det@ == spec_kind_name(old(self).kind)
            },
    {
        match ManagerKind::from_str(input) {
            Ok(kind) => {
                self.set_kind(kind);
                Ok(kind)
            },
            Err(_) => Err(
                ErrorKind::UnsupportedManager(
                    input.to_owned(),
                    self.get_kind_lowercase().to_owned(),
                ),
            ),
        }
    }
}

} // verus!
