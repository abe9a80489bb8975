//! The location of a value inside a JSON document, written as `/key/key`.

use vstd::prelude::*;

use crate::strings::push_char;

verus! {

/// The character that separates the keys of a path.
pub const DELIMETER: char = '/';

/// A key can stand in a path when it holds no delimiter.
pub open spec fn valid_key(key: Seq<char>) -> bool {
    !key.contains(DELIMETER)
}

/// The path one level up: the key, then the path below it.
pub open spec fn lifted_path(key: Seq<char>, path: Seq<char>) -> Seq<char> {
    seq![DELIMETER] + key + path
}

/// A path from the root of a document: each key preceded by a delimiter.
#[derive(Debug)]
pub struct Path(String);

impl View for Path {
    type V = Seq<char>;

    closed spec fn view(&self) -> Seq<char> {
        self.0@
    }
}

impl Path {
    /// Whether the key holds no delimiter, and so can stand in a path.
    pub fn check_key(key: &str) -> (valid: bool)
        ensures
            valid == valid_key(key@),
    {
        let mut valid = true;
        for c in it: key.chars()
            invariant
                it.seq() == key@,
                valid == !it.seq().take(it.index() as int).contains(DELIMETER),
        {
            let ghost i = it.index();
            let ghost before = it.seq().take(i as int);
            proof {
                assert(c == it.seq()[i as int]);
                assert(it.seq().take(i + 1) =~= before.push(c));
                if before.push(c).contains(DELIMETER) && c != DELIMETER {
                    let j = choose|j: int| 0 <= j < before.push(c).len() && before.push(c)[j] == DELIMETER;
                    assert(before[j] == DELIMETER);
                }
                if before.contains(DELIMETER) {
                    let j = choose|j: int| 0 <= j < before.len() && before[j] == DELIMETER;
                    assert(before.push(c)[j] == DELIMETER);
                }
                if c == DELIMETER {
                    assert(before.push(c)[before.len() as int] == DELIMETER);
                }
            }
            if c == DELIMETER {
                valid = false;
            }
        }
        proof {
            assert(key@.take(key@.len() as int) =~= key@);
        }
        valid
    }

    /// The path made of the single key: the delimiter, then the key.
    pub fn from_key(key: String) -> (path: Path)
        requires
            valid_key(key@),
        ensures
            path@ == lifted_path(key@, Seq::<char>::empty()),
    {
        let mut text = String::new();
        push_char(&mut text, DELIMETER);
        text.append(key.as_str());
        proof {
            assert(text@ =~= lifted_path(key@, Seq::<char>::empty()));
        }
        Path(text)
    }

    /// The empty path, which names the document itself.
    pub fn new() -> (path: Path)
        ensures
            path@ == Seq::<char>::empty(),
    {
        Path(String::new())
    }

    /// Puts the key in front of the path.
    pub fn lift(self, key: &str) -> (path: Path)
        requires
            valid_key(key@),
        ensures
            path@ == lifted_path(key@, self@),
    {
        let mut text = String::new();
        push_char(&mut text, DELIMETER);
        text.append(key);
        text.append(self.0.as_str());
        proof {
            assert(text@ =~= lifted_path(key@, self@));
        }
        Path(text)
    }

    /// The path as text.
    pub fn to_string(&self) -> (text: String)
        ensures
            text@ == self@,
    {
        self.0.clone()
    }
}

/// Lifting a path under a key writes `/`, then the key, then the path:
/// the key and the path can be read back from the result, and a valid key
/// puts no further `/` before the path; a path from one key is `/` and the
/// key.
pub proof fn law_lift_puts_the_key_first(key: Seq<char>, path: Seq<char>)
    ensures
        ({
            let lifted = lifted_path(key, path);
            &&& lifted.len() == 1 + key.len() + path.len()
            &&& lifted[0] == '/'
            &&& lifted.subrange(1, 1 + key.len() as int) == key
            &&& lifted.subrange(1 + key.len() as int, lifted.len() as int) == path
            &&& valid_key(key) ==> forall|i: int|
                1 <= i < 1 + key.len() ==> #[trigger] lifted[i] != '/'
        }),
        lifted_path(key, Seq::<char>::empty()) == seq!['/'] + key,
{
    let lifted = lifted_path(key, path);
    assert(lifted.subrange(1, 1 + key.len() as int) =~= key);
    assert(lifted.subrange(1 + key.len() as int, lifted.len() as int) =~= path);
    if valid_key(key) {
        assert forall|i: int| 1 <= i < 1 + key.len() implies #[trigger] lifted[i] != '/' by {
            assert(lifted[i] == key[i - 1]);
        }
    }
    assert(lifted_path(key, Seq::<char>::empty()) =~= seq!['/'] + key);
}

} // verus!
