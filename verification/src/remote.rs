//! What is made of the answers of the web services: the location label and the
//! latest released version.
use vstd::prelude::*;
use crate::text::{chars_of, push_char, string_of, string_from};

verus! {

/// Removes every leading `c` (as `str::trim_start_matches` does with a character).
pub open spec fn trim_leading(s: Seq<char>, c: char) -> Seq<char>
    decreases s.len(),
{
    if s.len() > 0 && s[0] == c {
        trim_leading(s.drop_first(), c)
    } else {
        s
    }
}

/// The version named by a release tag: the tag without its leading `v`s.
pub fn version_from_tag(tag: &str) -> (r: String)
    ensures
        r@ == trim_leading(tag@, 'v'),
{
    let v = chars_of(tag);
    let n = v.len();
    let mut i: usize = 0;
    assert(v@.subrange(0, n as int) =~= v@);
    while i < n && v[i] == 'v'
        invariant
            n == v@.len(),
            i <= n,
            trim_leading(v@, 'v') == trim_leading(v@.subrange(i as int, n as int), 'v'),
        decreases n - i,
    {
        assert(v@.subrange(i as int, n as int).drop_first() =~= v@.subrange(i + 1, n as int));
        i = i + 1;
    }
    assert(v@.subrange(0, n as int) =~= v@);
    string_of(&v, i, n)
}

/// The label of a located place, `"<city>, <country code>"`; `None` when the city
/// is not known (the caller then shows the coordinates).
pub fn place_label(city: &str, country_code: &str) -> (r: Option<String>)
    ensures
        city@.len() == 0 ==> r is None,
        city@.len() > 0 ==> (r matches Some(l) && l@ == city@ + seq![',', ' '] + country_code@),
{
    if city.is_empty() {
        return None;
    }
    let mut label = string_from(city);
    push_char(&mut label, ',');
    push_char(&mut label, ' ');
    let cc = chars_of(country_code);
    let mut i: usize = 0;
    while i < cc.len()
        invariant
            i <= cc@.len(),
            cc@ == country_code@,
            label@ == city@ + seq![',', ' '] + cc@.subrange(0, i as int),
        decreases cc@.len() - i,
    {
        push_char(&mut label, cc[i]);
        i = i + 1;
        assert(label@ =~= city@ + seq![',', ' '] + cc@.subrange(0, i as int));
    }
    assert(cc@.subrange(0, cc@.len() as int) =~= cc@);
    Some(label)
}

} // verus!
