use vstd::prelude::*;

use crate::gdb_mi::breakpoint::GdbBreakpoint;
use crate::gdb_mi::session::{opt_text, SpecBreakpoint};
use crate::gdb_mi::strings::{chars_of, string_from_chars};

verus! {

/// DAP source descriptor.
#[derive(Debug, Clone, PartialEq, Eq)]
pub struct DapSource {
    /// User-facing source name.
    pub name: Option<String>,
    /// Absolute or workspace-relative source path.
    pub path: Option<String>,
}

/// One requested source breakpoint.
#[derive(Debug, Clone, PartialEq, Eq)]
pub struct DapSourceBreakpoint {
    /// One-based source line.
    pub line: u64,
    /// Optional one-based source column.
    pub column: Option<u64>,
    /// Conditional expressions are not supported.
    pub condition: Option<String>,
    /// Hit conditions are not supported.
    pub hit_condition: Option<String>,
    /// Log points are not supported.
    pub log_message: Option<String>,
}

/// Arguments of the DAP `setBreakpoints` request.
#[derive(Debug, Clone, PartialEq, Eq)]
pub struct SetBreakpointsArguments {
    /// Source file whose complete breakpoint list is being replaced.
    pub source: DapSource,
    /// Requested breakpoints.
    pub breakpoints: Vec<DapSourceBreakpoint>,
    /// Whether the source contents have changed since they were read.
    pub source_modified: bool,
}

/// DAP representation of a breakpoint.
#[derive(Debug, Clone, PartialEq, Eq)]
pub struct DapBreakpoint {
    /// Adapter-specific breakpoint identifier.
    pub id: Option<u64>,
    /// Whether GDB resolved the breakpoint.
    pub verified: bool,
    /// Diagnostic message for an unresolved breakpoint.
    pub message: Option<String>,
    /// Resolved source.
    pub source: Option<DapSource>,
    /// Resolved one-based source line.
    pub line: Option<u64>,
    /// Instruction address reported by GDB.
    pub instruction_reference: Option<String>,
}

/// Mathematical model of a DAP breakpoint.
pub struct SpecDapBreakpoint {
    pub id: Option<u64>,
    pub verified: bool,
    pub message: Option<Seq<char>>,
    pub source_name: Option<Seq<char>>,
    pub source_path: Option<Seq<char>>,
    pub has_source: bool,
    pub line: Option<u64>,
    pub instruction_reference: Option<Seq<char>>,
}

impl View for DapBreakpoint {
    type V = SpecDapBreakpoint;

    open spec fn view(&self) -> SpecDapBreakpoint {
        SpecDapBreakpoint {
            id: self.id,
            verified: self.verified,
            message: opt_text(self.message),
            source_name: match self.source {
                Some(s) => opt_text(s.name),
                None => None,
            },
            source_path: match self.source {
                Some(s) => opt_text(s.path),
                None => None,
            },
            has_source: self.source is Some,
            line: self.line,
            instruction_reference: opt_text(self.instruction_reference),
        }
    }
}

/// Start of the path segment that ends at `j`.
pub open spec fn segment_start(p: Seq<char>, j: int) -> int
    decreases j,
{
    if 0 < j <= p.len() && p[j - 1] != '/' {
        segment_start(p, j - 1)
    } else {
        j
    }
}

pub proof fn lemma_segment_start(p: Seq<char>, j: int)
    requires
        0 <= j <= p.len(),
    ensures
        0 <= segment_start(p, j) <= j,
        j > 0 && p[j - 1] != '/' ==> segment_start(p, j) < j,
        segment_start(p, j) > 0 ==> p[segment_start(p, j) - 1] == '/',
        forall|k: int| segment_start(p, j) <= k < j ==> p[k] != '/',
    decreases j,
{
    if 0 < j && p[j - 1] != '/' {
        lemma_segment_start(p, j - 1);
    }
}

/// The bounds of the last path component before `j` other than `.`,
/// skipping separators.
pub open spec fn last_component(p: Seq<char>, j: int) -> Option<(int, int)>
    decreases j,
{
    if j <= 0 || j > p.len() {
        None
    } else if p[j - 1] == '/' {
        last_component(p, j - 1)
    } else {
        let i = segment_start(p, j);
        proof {
            lemma_segment_start(p, j);
        }
        if p.subrange(i, j) == seq!['.'] {
            last_component(p, i)
        } else {
            Some((i, j))
        }
    }
}

/// The final component of a Unix path, unless it is `..` or the path has
/// only separators and `.` components (`Path::file_name`).
pub open spec fn file_name(p: Seq<char>) -> Option<Seq<char>> {
    match last_component(p, p.len() as int) {
        None => None,
        Some((i, j)) => if p.subrange(i, j) == seq!['.', '.'] {
            None
        } else {
            Some(p.subrange(i, j))
        },
    }
}

/// The final component of a Unix path.
pub fn path_file_name(path: &str) -> (res: Option<String>)
    ensures
        match file_name(path@) {
            Some(name) => res matches Some(n) && n@ == name,
            None => res is None,
        },
{
    let p = chars_of(path);
    let mut j: usize = p.len();
    loop
        invariant
            j <= p.len(),
            p@ == path@,
            last_component(path@, path@.len() as int) == last_component(path@, j as int),
        decreases j,
    {
        if j == 0 {
            return None;
        }
        if p[j - 1] == '/' {
            j = j - 1;
        } else {
            let mut i = j;
            proof {
                lemma_segment_start(path@, j as int);
            }
            while i > 0 && p[i - 1] != '/'
                invariant
                    i <= j <= p.len(),
                    p@ == path@,
                    segment_start(path@, j as int) == segment_start(path@, i as int),
                decreases i,
            {
                i = i - 1;
            }
            let ghost sub = path@.subrange(i as int, j as int);
            assert(segment_start(path@, j as int) == i as int);
            proof {
                lemma_segment_start(path@, j as int);
            }
            if j - i == 1 && p[i] == '.' {
                assert(sub =~= seq!['.']);
                j = i;
            } else {
                assert(sub != seq!['.']) by {
                    if sub.len() == 1 {
                        assert(sub[0] == p@[i as int]);
                    }
                }
                assert(last_component(path@, j as int) == Some((i as int, j as int)));
                if j - i == 2 && p[i] == '.' && p[i + 1] == '.' {
                    assert(sub =~= seq!['.', '.']);
                    return None;
                }
                assert(sub != seq!['.', '.']) by {
                    if sub.len() == 2 {
                        assert(sub[0] == p@[i as int]);
                        assert(sub[1] == p@[i + 1]);
                    }
                }
                return Some(string_from_chars(&p, i, j));
            }
        }
    }
}

/// The DAP form of a GDB breakpoint: the resolved file, or else the
/// requested one, gives the source path and name.
pub open spec fn dap_from_gdb(b: SpecBreakpoint) -> SpecDapBreakpoint {
    let path = match b.resolved_file {
        Some(f) => f,
        None => b.source,
    };
    SpecDapBreakpoint {
        id: b.number,
        verified: b.verified,
        message: b.message,
        source_name: file_name(path),
        source_path: Some(path),
        has_source: true,
        line: Some(b.line),
        instruction_reference: b.address,
    }
}

impl DapBreakpoint {
    /// Converts a GDB breakpoint result into its DAP form.
    pub fn from_gdb(breakpoint: GdbBreakpoint) -> (res: DapBreakpoint)
        ensures
            res@ == dap_from_gdb(breakpoint@),
    {
        let resolved_path = match breakpoint.resolved_file {
            Some(f) => f,
            None => breakpoint.source,
        };
        let name = path_file_name(resolved_path.as_str());
        DapBreakpoint {
            id: breakpoint.number,
            verified: breakpoint.verified,
            message: breakpoint.message,
            source: Some(DapSource { name, path: Some(resolved_path) }),
            line: Some(breakpoint.line),
            instruction_reference: breakpoint.address,
        }
    }
}

} // verus!
