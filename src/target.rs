//! Parsing a raw `name[:version]` target.
use vstd::prelude::*;
use vstd::string::*;

use crate::error::{Failure, InstallError};
use crate::text::{first_index_of, lemma_first_index_of, trim, trim_str};

verus! {

/// A logical target with an optional inline version, both trimmed and
/// non-empty.
#[derive(Debug, Clone)]
pub struct TargetSpec {
    pub logical_name: String,
    pub inline_version: Option<String>,
}

/// The name and inline version that `raw` denotes: split at the first `:`,
/// each part trimmed; `None` when a present part is blank.
pub open spec fn target_of(raw: Seq<char>) -> Option<(Seq<char>, Option<Seq<char>>)> {
    match first_index_of(raw, ':') {
        Some(k) => {
            let name = trim(raw.subrange(0, k));
            let version = trim(raw.subrange(k + 1, raw.len() as int));
            if name.len() == 0 || version.len() == 0 {
                None
            } else {
                Some((name, Some(version)))
            }
        },
        None => {
            let name = trim(raw);
            if name.len() == 0 {
                None
            } else {
                Some((name, None))
            }
        },
    }
}

impl TargetSpec {
    pub open spec fn spec_version(&self) -> Option<Seq<char>> {
        match self.inline_version {
            Some(v) => Some(v@),
            None => None,
        }
    }
}

/// Parses `name[:version]`.
pub fn parse_target_spec(raw: &str) -> (r: Result<TargetSpec, InstallError>)
    ensures
        match target_of(raw@) {
            Some((name, version)) => r matches Ok(t) && t.logical_name@ == name
                && t.spec_version() == version,
            None => r matches Err(e) && e@ == (Failure::InvalidTargetSpec { spec: raw@ }),
        },
{
    let n = raw.unicode_len();
    let mut i: usize = 0;
    while i < n && raw.get_char(i) != ':'
        invariant
            n == raw@.len(),
            i <= n,
            forall|j: int| 0 <= j < i ==> raw@[j] != ':',
        decreases n - i,
    {
        i = i + 1;
    }
    proof {
        lemma_first_index_of(raw@, ':');
        match first_index_of(raw@, ':') {
            Some(k) => {
                if k < i {
                    assert(raw@[k] != ':');
                }
                if i < k {
                    assert(raw@[i as int] == ':');
                }
            },
            None => {
                if i < n {
                    assert(raw@[i as int] == ':');
                }
            },
        }
    }
    if i < n {
        let name = trim_str(raw.substring_char(0, i));
        let version = trim_str(raw.substring_char(i + 1, n));
        if name.unicode_len() == 0 || version.unicode_len() == 0 {
            return Err(InstallError::InvalidTargetSpec { spec: String::from_str(raw) });
        }
        Ok(
            TargetSpec {
                logical_name: String::from_str(name),
                inline_version: Some(String::from_str(version)),
            },
        )
    } else {
        proof {
            assert(raw@.subrange(0, n as int) =~= raw@);
        }
        let name = trim_str(raw);
        if name.unicode_len() == 0 {
            return Err(InstallError::InvalidTargetSpec { spec: String::from_str(raw) });
        }
        Ok(TargetSpec { logical_name: String::from_str(name), inline_version: None })
    }
}

/// A target without `:` whose trimmed form is not blank parses to that
/// trimmed form and no version.
pub proof fn lemma_plain_name_parses(name: Seq<char>)
    requires
        !name.contains(':'),
        trim(name).len() > 0,
    ensures
        target_of(name) == Some((trim(name), None::<Seq<char>>)),
{
    lemma_first_index_of(name, ':');
    if let Some(k) = first_index_of(name, ':') {
        assert(name[k] == ':');
    }
}

} // verus!
