//! Decoding of the request target header, whose value has the form
//! `{version}.{OperationName}`.

use vstd::prelude::*;
use vstd::string::*;
use crate::{OperationType, spec_operation_of};

verus! {

/// The operation a request selects: the protocol version and the parsed
/// operation name.
#[derive(Debug)]
pub struct Operation {
    pub version: String,
    pub name: OperationType,
}

/// Position of the first `.` in `s` at or after `i`.
pub open spec fn first_dot_from(s: Seq<char>, i: int) -> Option<int>
    decreases s.len() - i,
{
    if i < 0 || i >= s.len() {
        None
    } else if s[i] == '.' {
        Some(i)
    } else {
        first_dot_from(s, i + 1)
    }
}

/// Position of the first `.` in `s`.
pub open spec fn first_dot(s: Seq<char>) -> Option<int> {
    first_dot_from(s, 0)
}

impl Operation {
    /// Split a target header at its first dot into version and operation
    /// name, and parse the name.
    pub fn parse_target(s: &str) -> (r: Result<Operation, String>)
        ensures
            match first_dot(s@) {
                None => r matches Err(m) && m@ == "invalid number of parts"@,
                Some(i) => match spec_operation_of(s@.skip(i + 1)) {
                    Some(op) => r matches Ok(o) && o.version@ == s@.take(i) && o.name == op,
                    None => r matches Err(m) && m@ == "parsing operation: operation "@ + s@.skip(
                        i + 1,
                    ) + " not handled"@,
                },
            },
    {
        let n = s.unicode_len();
        let mut i: usize = 0;
        while i < n
            invariant
                i <= n,
                n == s@.len(),
                first_dot_from(s@, 0) == first_dot_from(s@, i as int),
            decreases n - i,
        {
            if s.get_char(i) == '.' {
                proof {
                    assert(first_dot(s@) == Some(i as int));
                }
                let version = s.substring_char(0, i).to_owned();
                let opname = s.substring_char(i + 1, n);
                proof {
                    assert(opname@ =~= s@.skip(i + 1));
                    assert(version@ =~= s@.take(i as int));
                }
                match OperationType::parse_name(opname) {
                    Ok(name) => {
                        return Ok(Operation { version, name });
                    },
                    Err(e) => {
                        let m: String = "parsing operation: ".to_owned();
                        let m = m.concat(e.as_str());
                        proof {
                            reveal_strlit("parsing operation: ");
                            reveal_strlit("operation ");
                            reveal_strlit("parsing operation: operation ");
                            assert(m@ =~= "parsing operation: operation "@ + s@.skip(i + 1)
                                + " not handled"@);
                        }
                        return Err(m);
                    },
                }
            }
            i = i + 1;
        }
        Err("invalid number of parts".to_owned())
    }
}

} // verus!
