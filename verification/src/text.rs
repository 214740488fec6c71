//! Small helpers on strings.

use vstd::prelude::*;
use vstd::string::StringExecFns;

verus! {

/// The characters of each string of a sequence.
pub open spec fn texts(names: Seq<String>) -> Seq<Seq<char>> {
    Seq::new(names.len(), |i: int| names[i]@)
}

/// The characters of an optional string.
pub open spec fn option_text(name: Option<String>) -> Option<Seq<char>> {
    match name {
        Some(s) => Some(s@),
        None => None,
    }
}

/// The characters of a result's value or message.
pub open spec fn result_text(r: Result<String, String>) -> Result<Seq<char>, Seq<char>> {
    match r {
        Ok(s) => Ok(s@),
        Err(s) => Err(s@),
    }
}

/// The views of the elements of a sequence.
pub open spec fn views<T: View>(items: Seq<T>) -> Seq<T::V> {
    Seq::new(items.len(), |i: int| items[i]@)
}

/// Whether two strings hold the same characters.
pub fn same_text(a: &String, b: &String) -> (r: bool)
    ensures
        r == (a@ == b@),
{
    *a == *b
}

/// Whether a string holds the characters of a literal.
pub fn is_text(a: &String, lit: &str) -> (r: bool)
    ensures
        r == (a@ == lit@),
{
    let other = String::from_str(lit);
    *a == other
}

/// Whether an exec position and a spec position are the same.
pub open spec fn same_index(a: Option<usize>, b: Option<int>) -> bool {
    match a {
        Some(i) => b == Some(i as int),
        None => b is None,
    }
}

/// The position of the first element of `names` equal to `name`, if there is one.
pub fn position(names: &Vec<String>, name: &String) -> (r: Option<usize>)
    ensures
        same_index(r, texts(names@).index_of_first(name@)),
        r is Some <==> texts(names@).contains(name@),
{
    proof {
        texts(names@).index_of_first_ensures(name@);
    }
    let mut i: usize = 0;
    while i < names.len()
        invariant
            i <= names.len(),
            forall|j: int| 0 <= j < i ==> texts(names@)[j] != name@,
            match texts(names@).index_of_first(name@) {
                Some(index) => {
                    &&& texts(names@).contains(name@)
                    &&& 0 <= index < texts(names@).len()
                    &&& texts(names@)[index] == name@
                    &&& forall|j: int| 0 <= j < index ==> texts(names@)[j] != name@
                },
                None => !texts(names@).contains(name@),
            },
        decreases names.len() - i,
    {
        if same_text(&names[i], name) {
            assert(texts(names@)[i as int] == name@);
            return Some(i);
        }
        i = i + 1;
    }
    None
}

} // verus!
