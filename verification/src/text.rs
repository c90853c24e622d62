//! Verified helpers over strings: substring containment, prefix tests, and
//! the qualified-ID format that all three analysis passes share.

use vstd::prelude::*;
use vstd::string::StrSliceExecFns;
use vstd::string::StringExecFns;

verus! {

/// `needle` occurs in `hay` as a contiguous substring starting at offset `k`.
pub open spec fn matches_at(hay: Seq<char>, needle: Seq<char>, k: int) -> bool {
    0 <= k && k + needle.len() <= hay.len() && hay.subrange(k, k + needle.len()) == needle
}

/// `needle` occurs somewhere in `hay` as a contiguous substring.
pub open spec fn contains_sub(hay: Seq<char>, needle: Seq<char>) -> bool {
    exists|k: int| matches_at(hay, needle, k)
}

/// `s` begins with `prefix`.
pub open spec fn has_prefix(s: Seq<char>, prefix: Seq<char>) -> bool {
    prefix.len() <= s.len() && s.subrange(0, prefix.len() as int) == prefix
}

fn chars_match_at(hay: &str, needle: &str, k: usize, hay_len: usize, needle_len: usize) -> (r:
    bool)
    requires
        hay_len == hay@.len(),
        needle_len == needle@.len(),
        k + needle_len <= hay_len,
    ensures
        r == matches_at(hay@, needle@, k as int),
{
    let mut j: usize = 0;
    while j < needle_len
        invariant
            j <= needle_len,
            hay_len == hay@.len(),
            needle_len == needle@.len(),
            k + needle_len <= hay_len,
            forall|i: int| 0 <= i < j ==> hay@[k + i] == needle@[i],
        decreases needle_len - j,
    {
        if hay.get_char(k + j) != needle.get_char(j) {
            assert(hay@.subrange(k as int, k + needle@.len()) != needle@) by {
                assert(hay@.subrange(k as int, k + needle@.len())[j as int] != needle@[j as int]);
            }
            return false;
        }
        j = j + 1;
    }
    assert(hay@.subrange(k as int, k + needle@.len()) =~= needle@);
    true
}

/// Whether `needle` occurs anywhere in `hay`, by a direct scan.
pub fn str_contains(hay: &str, needle: &str) -> (r: bool)
    ensures
        r == contains_sub(hay@, needle@),
{
    let hay_len = hay.unicode_len();
    let needle_len = needle.unicode_len();
    if needle_len > hay_len {
        assert(forall|k: int| !matches_at(hay@, needle@, k));
        return false;
    }
    if needle_len == 0 {
        assert(hay@.subrange(0, 0) =~= needle@);
        assert(matches_at(hay@, needle@, 0));
        return true;
    }
    let last = hay_len - needle_len;
    let mut k: usize = 0;
    while k <= last
        invariant
            1 <= needle_len <= hay_len,
            last == hay_len - needle_len,
            k <= last + 1,
            hay_len == hay@.len(),
            needle_len == needle@.len(),
            forall|i: int| 0 <= i < k ==> !matches_at(hay@, needle@, i),
        decreases last + 1 - k,
    {
        if chars_match_at(hay, needle, k, hay_len, needle_len) {
            return true;
        }
        k = k + 1;
    }
    assert(forall|i: int| k <= i ==> !matches_at(hay@, needle@, i));
    false
}

/// Whether two string slices hold the same characters.
pub fn str_eq(a: &str, b: &str) -> (r: bool)
    ensures
        r == (a@ == b@),
{
    let a_len = a.unicode_len();
    let b_len = b.unicode_len();
    if a_len != b_len {
        return false;
    }
    if chars_match_at(a, b, 0, a_len, b_len) {
        assert(a@.subrange(0, a@.len() as int) =~= a@);
        true
    } else {
        assert(a@.subrange(0, a@.len() as int) =~= a@);
        false
    }
}

/// Whether `s` starts with `prefix`, by a direct scan.
pub fn str_has_prefix(s: &str, prefix: &str) -> (r: bool)
    ensures
        r == has_prefix(s@, prefix@),
{
    let s_len = s.unicode_len();
    let prefix_len = prefix.unicode_len();
    if prefix_len > s_len {
        return false;
    }
    chars_match_at(s, prefix, 0, s_len, prefix_len)
}

/// The class half of a qualified ID: the class name, or `NOT_SET` when the
/// context has none.
pub open spec fn spec_or_not_set(class: Option<Seq<char>>) -> Seq<char> {
    match class {
        Some(c) => c,
        None => "NOT_SET"@,
    }
}

/// A name, or the `<anonymous>` placeholder when the context has none.
pub open spec fn spec_or_anonymous(name: Option<Seq<char>>) -> Seq<char> {
    match name {
        Some(n) => n,
        None => "<anonymous>"@,
    }
}

/// The qualified ID joining a class context and a function/method name:
/// `<class-name-or-NOT_SET>-<name>`.
pub open spec fn spec_qualified_id(class: Option<Seq<char>>, name: Seq<char>) -> Seq<char> {
    spec_or_not_set(class) + "-"@ + name
}

pub fn class_or_not_set(class: &Option<String>) -> (r: String)
    ensures
        r@ == spec_or_not_set(class.deep_view()),
{
    match class {
        Some(c) => c.clone(),
        None => String::from_str("NOT_SET"),
    }
}

pub fn name_or_anonymous(name: &Option<String>) -> (r: String)
    ensures
        r@ == spec_or_anonymous(name.deep_view()),
{
    match name {
        Some(n) => n.clone(),
        None => String::from_str("<anonymous>"),
    }
}

/// Builds the qualified ID `<class-or-NOT_SET>-<name>`.
pub fn qualified_id(class: &Option<String>, name: &str) -> (r: String)
    ensures
        r@ == spec_qualified_id(class.deep_view(), name@),
{
    let mut s = class_or_not_set(class);
    s.append("-");
    s.append(name);
    s
}

/// A deep copy of an optional name.
pub fn clone_opt_string(o: &Option<String>) -> (r: Option<String>)
    ensures
        r.deep_view() == o.deep_view(),
{
    match o {
        Some(s) => Some(s.clone()),
        None => None,
    }
}

/// Whether any element of `v` equals `s`.
pub fn vec_contains_string(v: &Vec<String>, s: &str) -> (r: bool)
    ensures
        r == v.deep_view().contains(s@),
{
    let mut i: usize = 0;
    while i < v.len()
        invariant
            i <= v.len(),
            forall|j: int| 0 <= j < i ==> v.deep_view()[j] != s@,
        decreases v.len() - i,
    {
        if str_eq(v[i].as_str(), s) {
            assert(v.deep_view()[i as int] == s@);
            return true;
        }
        assert(v.deep_view()[i as int] != s@);
        i = i + 1;
    }
    assert(forall|j: int| 0 <= j < v.deep_view().len() ==> v.deep_view()[j] != s@);
    false
}

/// Appends `s` unless an equal string is already present; used for the
/// deduplicated import-source list.
pub open spec fn spec_insert_unique(acc: Seq<Seq<char>>, s: Seq<char>) -> Seq<Seq<char>> {
    if acc.contains(s) {
        acc
    } else {
        acc.push(s)
    }
}

pub fn insert_unique_string(v: &mut Vec<String>, s: String)
    ensures
        final(v).deep_view() == spec_insert_unique(old(v).deep_view(), s@),
{
    if !vec_contains_string(v, s.as_str()) {
        let ghost before = v.deep_view();
        v.push(s);
        assert(v.deep_view() =~= before.push(s@));
    }
}

} // verus!
