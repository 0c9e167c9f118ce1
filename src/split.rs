use vstd::prelude::*;
use vstd::string::*;

use crate::error::ConfigError;

verus! {

/// A part of a scene: its own image directory and metadata file.
#[derive(Clone, Copy, Debug, PartialEq, Eq, Structural)]
pub enum Split {
    Train,
    Val,
    Test,
}

/// The split that a name denotes: `train`, `val` or `valid`, `test`.
pub open spec fn spec_parse_split(s: Seq<char>) -> Option<Split> {
    if s == seq!['t', 'r', 'a', 'i', 'n'] {
        Some(Split::Train)
    } else if s == seq!['v', 'a', 'l'] || s == seq!['v', 'a', 'l', 'i', 'd'] {
        Some(Split::Val)
    } else if s == seq!['t', 'e', 's', 't'] {
        Some(Split::Test)
    } else {
        None
    }
}

/// Name of the split's image directory.
pub open spec fn spec_dir_name(s: Split) -> Seq<char> {
    match s {
        Split::Train => seq!['t', 'r', 'a', 'i', 'n'],
        Split::Val => seq!['v', 'a', 'l'],
        Split::Test => seq!['t', 'e', 's', 't'],
    }
}

/// Name of the split's metadata file: `transforms_<dir>.json`.
pub open spec fn spec_transforms_file(s: Split) -> Seq<char> {
    seq!['t', 'r', 'a', 'n', 's', 'f', 'o', 'r', 'm', 's', '_'] + spec_dir_name(s) + seq![
        '.',
        'j',
        's',
        'o',
        'n',
    ]
}

/// Whether `s` and `word` hold the same characters.
fn same_chars(s: &str, word: &str) -> (r: bool)
    ensures
        r == (s@ == word@),
{
    let n = s.unicode_len();
    if n != word.unicode_len() {
        return false;
    }
    let mut i: usize = 0;
    while i < n
        invariant
            n == s@.len(),
            n == word@.len(),
            0 <= i <= n,
            forall|j: int| 0 <= j < i ==> s@[j] == word@[j],
        decreases n - i,
    {
        if s.get_char(i) != word.get_char(i) {
            return false;
        }
        i = i + 1;
    }
    assert(s@ =~= word@);
    true
}

impl Split {
    /// The split that `name` denotes; any other name is refused before
    /// anything is read.
    pub fn parse(name: &str) -> (r: Result<Split, ConfigError>)
        ensures
            r == (match spec_parse_split(name@) {
                Some(s) => Ok(s),
                None => Err(ConfigError::UnknownSplit),
            }),
    {
        proof {
            reveal_strlit("train");
            reveal_strlit("val");
            reveal_strlit("valid");
            reveal_strlit("test");
            assert("train"@ =~= seq!['t', 'r', 'a', 'i', 'n']);
            assert("val"@ =~= seq!['v', 'a', 'l']);
            assert("valid"@ =~= seq!['v', 'a', 'l', 'i', 'd']);
            assert("test"@ =~= seq!['t', 'e', 's', 't']);
        }
        if same_chars(name, "train") {
            Ok(Split::Train)
        } else if same_chars(name, "val") || same_chars(name, "valid") {
            Ok(Split::Val)
        } else if same_chars(name, "test") {
            Ok(Split::Test)
        } else {
            Err(ConfigError::UnknownSplit)
        }
    }

    /// Name of the split's image directory under the scene root.
    pub fn dir_name(&self) -> (r: &'static str)
        ensures
            r@ == spec_dir_name(*self),
    {
        match self {
            Split::Train => {
                proof {
                    reveal_strlit("train");
                }
                "train"
            },
            Split::Val => {
                proof {
                    reveal_strlit("val");
                }
                "val"
            },
            Split::Test => {
                proof {
                    reveal_strlit("test");
                }
                "test"
            },
        }
    }

    /// Name of the split's metadata file under the scene root.
    pub fn transforms_file(&self) -> (r: &'static str)
        ensures
            r@ == spec_transforms_file(*self),
    {
        match self {
            Split::Train => {
                proof {
                    reveal_strlit("transforms_train.json");
                }
                assert("transforms_train.json"@ =~= spec_transforms_file(Split::Train));
                "transforms_train.json"
            },
            Split::Val => {
                proof {
                    reveal_strlit("transforms_val.json");
                }
                assert("transforms_val.json"@ =~= spec_transforms_file(Split::Val));
                "transforms_val.json"
            },
            Split::Test => {
                proof {
                    reveal_strlit("transforms_test.json");
                }
                assert("transforms_test.json"@ =~= spec_transforms_file(Split::Test));
                "transforms_test.json"
            },
        }
    }
}

} // verus!
