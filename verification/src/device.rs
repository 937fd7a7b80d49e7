//! Choosing an audio device by a fragment of its name.

use vstd::prelude::*;

verus! {

/// The result of `str::to_lowercase` on a string: its Unicode lowercase
/// mapping as std defines it (mostly per character, with context-sensitive
/// cases such as a final sigma).
pub uninterp spec fn lowercase(s: Seq<char>) -> Seq<char>;

/// `str::to_lowercase`: the string's lowercase mapping, as named by
/// `lowercase`. Nothing more is stated of the mapping.
#[verifier::external_body]
fn to_lowercase(s: &str) -> (r: String)
    ensures
        r@ == lowercase(s@),
{
    s.to_lowercase()
}

/// Whether `needle` occurs in `hay` starting at index `i`.
pub open spec fn occurs_at(hay: Seq<char>, needle: Seq<char>, i: int) -> bool {
    &&& 0 <= i
    &&& i + needle.len() <= hay.len()
    &&& hay.subrange(i, i + needle.len()) == needle
}

/// Whether `needle` occurs anywhere in `hay` (the empty string occurs in
/// every string).
pub open spec fn occurs_in(hay: Seq<char>, needle: Seq<char>) -> bool {
    exists|i: int| occurs_at(hay, needle, i)
}

/// Whether a device called `name` is picked by the filter `query`: the
/// lowercased query occurs in the lowercased name.
pub open spec fn name_matches(name: Seq<char>, query: Seq<char>) -> bool {
    occurs_in(lowercase(name), lowercase(query))
}

/// The characters of `s`, in order.
fn chars_of(s: &str) -> (v: Vec<char>)
    ensures
        v@ == s@,
{
    broadcast use vstd::string::axiom_spec_iter;

    let mut v: Vec<char> = Vec::new();
    for c in it: s.chars()
        invariant
            it.seq() == s@,
            v@ == it.seq().take(it.index() as int),
    {
        v.push(c);
    }
    v
}

/// Whether `needle` occurs in `hay`.
fn occurs(hay: &Vec<char>, needle: &Vec<char>) -> (b: bool)
    ensures
        b == occurs_in(hay@, needle@),
{
    if needle.len() > hay.len() {
        return false;
    }
    if needle.len() == 0 {
        assert(hay@.subrange(0, 0) =~= needle@);
        assert(occurs_at(hay@, needle@, 0));
        return true;
    }
    let last = hay.len() - needle.len();
    let mut i: usize = 0;
    while i <= last
        invariant
            last == hay@.len() - needle@.len(),
            0 < needle@.len() <= hay@.len() <= usize::MAX,
            i <= last + 1,
            forall|j: int| 0 <= j < i ==> !occurs_at(hay@, needle@, j),
        decreases last + 1 - i,
    {
        let mut k: usize = 0;
        let mut same = true;
        while k < needle.len()
            invariant
                i <= last,
                last == hay@.len() - needle@.len(),
                needle@.len() <= hay@.len() <= usize::MAX,
                k <= needle@.len(),
                same == forall|m: int| 0 <= m < k ==> hay@[i + m] == needle@[m],
            decreases needle@.len() - k,
        {
            if hay[i + k] != needle[k] {
                same = false;
            }
            k = k + 1;
        }
        if same {
            assert(hay@.subrange(i as int, i + needle@.len()) =~= needle@);
            assert(occurs_at(hay@, needle@, i as int));
            return true;
        }
        assert(!occurs_at(hay@, needle@, i as int)) by {
            let m = choose|m: int| 0 <= m < needle@.len() && hay@[i + m] != needle@[m];
            if hay@.subrange(i as int, i + needle@.len()) == needle@ {
                assert(hay@.subrange(i as int, i + needle@.len())[m] == hay@[i + m]);
            }
        }
        i = i + 1;
    }
    false
}

/// The index of the first name that `query` picks, comparing lowercased
/// names and query; `None` when no name matches.
pub fn find_device_by_name(names: &Vec<String>, query: &str) -> (found: Option<usize>)
    ensures
        match found {
            Some(i) => {
                &&& i < names@.len()
                &&& name_matches(names@[i as int]@, query@)
                &&& forall|j: int| 0 <= j < i ==> !name_matches(#[trigger] names@[j]@, query@)
            },
            None => forall|j: int|
                0 <= j < names@.len() ==> !name_matches(#[trigger] names@[j]@, query@),
        },
{
    let mut i: usize = 0;
    while i < names.len()
        invariant
            i <= names@.len(),
            forall|j: int| 0 <= j < i ==> !name_matches(#[trigger] names@[j]@, query@),
        decreases names@.len() - i,
    {
        let name = to_lowercase(names[i].as_str());
        let wanted = to_lowercase(query);
        if occurs(&chars_of(name.as_str()), &chars_of(wanted.as_str())) {
            return Some(i);
        }
        i = i + 1;
    }
    None
}

} // verus!
