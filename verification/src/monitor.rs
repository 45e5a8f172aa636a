//! Per-display settings and the cleaning of raw display device names.
use vstd::prelude::*;
use crate::curve::BrightnessCurve;
use crate::text::{
    chars_of, decimal, digit_char, lemma_parse_decimal, parse_u32, parse_u32_range, push_decimal,
    string_of, str_eq,
};

verus! {

/// The device-namespace prefix of Windows display names (`\\.\`).
pub open spec fn device_prefix() -> Seq<char> {
    seq!['\\', '\\', '.', '\\']
}

/// The verbatim-path prefix (`\\?\`).
pub open spec fn verbatim_prefix() -> Seq<char> {
    seq!['\\', '\\', '?', '\\']
}

/// The word that numbered display names start with.
pub open spec fn display_word() -> Seq<char> {
    seq!['D', 'I', 'S', 'P', 'L', 'A', 'Y']
}

/// The start of the label given to numbered displays.
pub open spec fn display_label_start() -> Seq<char> {
    seq!['D', 'i', 's', 'p', 'l', 'a', 'y', ' ']
}

/// Removes every leading copy of `pat` (as `str::trim_start_matches` does with a
/// string pattern).
pub open spec fn trim_prefix_all(s: Seq<char>, pat: Seq<char>) -> Seq<char>
    decreases s.len(),
{
    if pat.len() > 0 && pat.len() <= s.len() && s.subrange(0, pat.len() as int) == pat {
        trim_prefix_all(s.subrange(pat.len() as int, s.len() as int), pat)
    } else {
        s
    }
}

/// The text before the first `c`, or all of `s` when it holds none (the first item
/// of `str::split(c)`).
pub open spec fn before_first(s: Seq<char>, c: char) -> Seq<char>
    decreases s.len(),
{
    if s.len() == 0 {
        s
    } else if s[0] == c {
        Seq::empty()
    } else {
        seq![s[0]] + before_first(s.drop_first(), c)
    }
}

/// A raw device name with its namespace prefixes and any trailing path removed.
pub open spec fn device_name_core(raw: Seq<char>) -> Seq<char> {
    before_first(trim_prefix_all(trim_prefix_all(raw, device_prefix()), verbatim_prefix()), '\\')
}

/// The number in a name of the form `DISPLAY<n>`, if the name has that form.
pub open spec fn display_number(s: Seq<char>) -> Option<u32> {
    if s.len() >= 7 && s.subrange(0, 7) == display_word() {
        parse_u32(s.subrange(7, s.len() as int))
    } else {
        None
    }
}

/// The readable name of a display: `\\.\DISPLAY1\Monitor0` becomes `Display 1`;
/// other names lose their prefixes and trailing path and are kept as they are.
pub open spec fn clean_name(raw: Seq<char>) -> Seq<char> {
    let s = device_name_core(raw);
    match display_number(s) {
        Some(n) => display_label_start() + decimal(n as nat),
        None => s,
    }
}

/// Whether `v[i..]` starts with `pat`.
fn matches_at(v: &Vec<char>, i: usize, pat: &Vec<char>) -> (r: bool)
    requires
        i <= v@.len(),
    ensures
        r == (i + pat@.len() <= v@.len() && v@.subrange(i as int, i + pat@.len()) == pat@),
{
    let n = pat.len();
    if v.len() - i < n {
        return false;
    }
    let mut j: usize = 0;
    while j < n
        invariant
            n == pat@.len(),
            i + n <= v.len(),
            j <= n,
            forall|k: int| 0 <= k < j ==> v@[i + k] == pat@[k],
        decreases n - j,
    {
        if v[i + j] != pat[j] {
            assert(v@.subrange(i as int, i + n)[j as int] != pat@[j as int]);
            return false;
        }
        j = j + 1;
    }
    assert(v@.subrange(i as int, i + n) =~= pat@);
    true
}

/// The index after every leading copy of `pat` in `v[start..]`.
fn skip_all(v: &Vec<char>, start: usize, pat: &Vec<char>) -> (i: usize)
    requires
        start <= v@.len(),
        pat@.len() > 0,
    ensures
        start <= i <= v@.len(),
        trim_prefix_all(v@.subrange(start as int, v@.len() as int), pat@) == v@.subrange(
            i as int,
            v@.len() as int,
        ),
{
    let n = v.len();
    let mut i = start;
    while matches_at(v, i, pat)
        invariant
            n == v@.len(),
            start <= i <= n,
            pat@.len() > 0,
            trim_prefix_all(v@.subrange(start as int, n as int), pat@) == trim_prefix_all(
                v@.subrange(i as int, n as int),
                pat@,
            ),
        decreases n - i,
    {
        let ghost rest = v@.subrange(i as int, n as int);
        assert(rest.subrange(0, pat@.len() as int) =~= v@.subrange(i as int, i + pat@.len()));
        assert(rest.subrange(pat@.len() as int, rest.len() as int) =~= v@.subrange(
            i + pat@.len(),
            n as int,
        ));
        i = i + pat.len();
    }
    proof {
        let rest = v@.subrange(i as int, n as int);
        if pat@.len() <= rest.len() {
            assert(rest.subrange(0, pat@.len() as int) =~= v@.subrange(
                i as int,
                i + pat@.len(),
            ));
        }
    }
    i
}

proof fn lemma_before_first(s: Seq<char>, c: char, j: int)
    requires
        0 <= j <= s.len(),
        forall|k: int| 0 <= k < j ==> s[k] != c,
        j == s.len() || s[j] == c,
    ensures
        before_first(s, c) == s.subrange(0, j),
    decreases s.len(),
{
    if s.len() > 0 && j > 0 {
        lemma_before_first(s.drop_first(), c, j - 1);
        assert(s.subrange(0, j) =~= seq![s[0]] + s.drop_first().subrange(0, j - 1));
    } else {
        assert(s.subrange(0, j) =~= Seq::<char>::empty());
    }
}

/// The index of the first `c` in `v[from..]`, or the length of `v`.
fn find_from(v: &Vec<char>, from: usize, c: char) -> (j: usize)
    requires
        from <= v@.len(),
    ensures
        from <= j <= v@.len(),
        before_first(v@.subrange(from as int, v@.len() as int), c) == v@.subrange(
            from as int,
            j as int,
        ),
{
    let n = v.len();
    let mut j = from;
    while j < n && v[j] != c
        invariant
            n == v@.len(),
            from <= j <= n,
            forall|k: int| from <= k < j ==> v@[k] != c,
        decreases n - j,
    {
        j = j + 1;
    }
    proof {
        let s = v@.subrange(from as int, n as int);
        lemma_before_first(s, c, j - from);
        assert(s.subrange(0, j - from) =~= v@.subrange(from as int, j as int));
    }
    j
}

/// The readable name of a display device: the namespace prefixes `\\.\` and `\\?\`
/// are removed, then everything from the first backslash on; a name of the form
/// `DISPLAY<n>` becomes `Display <n>`.
pub fn clean_display_name(raw: &str) -> (r: String)
    ensures
        r@ == clean_name(raw@),
{
    let v = chars_of(raw);
    let device = vec!['\\', '\\', '.', '\\'];
    let verbatim = vec!['\\', '\\', '?', '\\'];
    assert(device@ =~= device_prefix());
    assert(verbatim@ =~= verbatim_prefix());
    let a = skip_all(&v, 0, &device);
    assert(v@.subrange(0, v@.len() as int) =~= raw@);
    let b = skip_all(&v, a, &verbatim);
    let e = find_from(&v, b, '\\');
    let ghost s = v@.subrange(b as int, e as int);
    assert(s == device_name_core(raw@));
    let word = vec!['D', 'I', 'S', 'P', 'L', 'A', 'Y'];
    assert(word@ =~= display_word());
    if e - b >= 7 && matches_at(&v, b, &word) {
        assert(s.subrange(0, 7) =~= v@.subrange(b as int, b + 7));
        assert(s.subrange(7, s.len() as int) =~= v@.subrange(b + 7, e as int));
        if let Some(n) = parse_u32_range(&v, b + 7, e) {
            let start = vec!['D', 'i', 's', 'p', 'l', 'a', 'y', ' '];
            let mut out = string_of(&start, 0, 8);
            assert(start@.subrange(0, 8) =~= display_label_start());
            push_decimal(&mut out, n);
            return out;
        }
    } else {
        proof {
            if s.len() >= 7 && s.subrange(0, 7) == display_word() {
                assert(s.subrange(0, 7) =~= v@.subrange(b as int, b + 7));
            }
        }
    }
    string_of(&v, b, e)
}

proof fn lemma_before_first_excludes(s: Seq<char>, c: char)
    ensures
        !before_first(s, c).contains(c),
        before_first(s, c).len() <= s.len(),
    decreases s.len(),
{
    if s.len() > 0 && s[0] != c {
        lemma_before_first_excludes(s.drop_first(), c);
        let r = before_first(s.drop_first(), c);
        assert(forall|i: int| 0 <= i < r.len() ==> (seq![s[0]] + r)[i + 1] == r[i]);
    }
}

proof fn lemma_before_first_without(s: Seq<char>, c: char)
    requires
        !s.contains(c),
    ensures
        before_first(s, c) == s,
    decreases s.len(),
{
    if s.len() > 0 {
        assert(s[0] != c);
        assert(!s.drop_first().contains(c)) by {
            if s.drop_first().contains(c) {
                let i = choose|i: int| 0 <= i < s.drop_first().len() && s.drop_first()[i] == c;
                assert(s[i + 1] == c);
            }
        }
        lemma_before_first_without(s.drop_first(), c);
        assert(seq![s[0]] + s.drop_first() =~= s);
    }
}

proof fn lemma_trim_without_backslash(s: Seq<char>, pat: Seq<char>)
    requires
        !s.contains('\\'),
        pat.len() > 0,
        pat[0] == '\\',
    ensures
        trim_prefix_all(s, pat) == s,
{
    if pat.len() <= s.len() && s.subrange(0, pat.len() as int) == pat {
        assert(s.subrange(0, pat.len() as int)[0] == s[0]);
        assert(s.contains(s[0]));
    }
}

proof fn lemma_core_fixed(s: Seq<char>)
    requires
        !s.contains('\\'),
    ensures
        device_name_core(s) == s,
{
    lemma_trim_without_backslash(s, device_prefix());
    lemma_trim_without_backslash(s, verbatim_prefix());
    lemma_before_first_without(s, '\\');
}

proof fn lemma_decimal_digits(n: nat)
    ensures
        forall|i: int| 0 <= i < decimal(n).len() ==> '0' <= #[trigger] decimal(n)[i] <= '9',
    decreases n,
{
    if n >= 10 {
        lemma_decimal_digits(n / 10);
        let d = (n % 10) as nat;
        assert(digit_char(d) as int == 48 + d);
        let p = decimal(n / 10);
        assert forall|i: int| 0 <= i < decimal(n).len() implies '0' <= #[trigger] decimal(n)[i]
            <= '9' by {
            if i < p.len() {
                assert(decimal(n)[i] == p[i]);
            }
        }
    } else {
        assert(digit_char(n) as int == 48 + n);
    }
}

proof fn lemma_label_without_backslash(n: nat)
    ensures
        !(display_label_start() + decimal(n)).contains('\\'),
{
    lemma_decimal_digits(n);
    let l = display_label_start() + decimal(n);
    if l.contains('\\') {
        let i = choose|i: int| 0 <= i < l.len() && l[i] == '\\';
        if i >= 8 {
            assert(l[i] == decimal(n)[i - 8]);
        }
    }
}

/// A cleaned display name never holds a backslash.
pub proof fn lemma_clean_name_has_no_backslash(raw: Seq<char>)
    ensures
        !clean_name(raw).contains('\\'),
{
    let s = device_name_core(raw);
    lemma_before_first_excludes(
        trim_prefix_all(trim_prefix_all(raw, device_prefix()), verbatim_prefix()),
        '\\',
    );
    if let Some(n) = display_number(s) {
        lemma_label_without_backslash(n as nat);
    }
}

/// Cleaning a display name twice gives what cleaning it once gives.
pub proof fn lemma_clean_name_idempotent(raw: Seq<char>)
    ensures
        clean_name(clean_name(raw)) == clean_name(raw),
{
    let r = clean_name(raw);
    lemma_clean_name_has_no_backslash(raw);
    lemma_core_fixed(r);
    let s = device_name_core(raw);
    if let Some(n) = display_number(s) {
        assert(r.subrange(0, 7)[1] == 'i');
        assert(display_word()[1] == 'I');
        assert(r.subrange(0, 7) != display_word());
    }
}

/// The device name of display `n` (`\\.\DISPLAY<n>`) is labelled `Display <n>`.
pub proof fn lemma_numbered_display_label(n: nat)
    requires
        n <= u32::MAX,
    ensures
        clean_name(device_prefix() + display_word() + decimal(n)) == display_label_start() + decimal(n),
{
    let dec = decimal(n);
    let named = display_word() + dec;
    let raw = device_prefix() + named;
    assert(device_prefix() + display_word() + dec =~= raw);
    lemma_parse_decimal(n);
    lemma_decimal_digits(n);
    assert(raw.subrange(0, 4) =~= device_prefix());
    assert(raw.subrange(4, raw.len() as int) =~= named);
    assert(trim_prefix_all(raw, device_prefix()) == trim_prefix_all(named, device_prefix()));
    assert(named.subrange(0, 4)[0] == 'D');
    assert(trim_prefix_all(named, device_prefix()) == named);
    assert(trim_prefix_all(named, verbatim_prefix()) == named);
    assert(!named.contains('\\')) by {
        if named.contains('\\') {
            let i = choose|i: int| 0 <= i < named.len() && named[i] == '\\';
            if i >= 7 {
                assert(named[i] == dec[i - 7]);
            }
        }
    }
    lemma_before_first_without(named, '\\');
    assert(device_name_core(raw) == named);
    assert(named.subrange(0, 7) =~= display_word());
    assert(named.subrange(7, named.len() as int) =~= dec);
    assert(display_number(named) == Some(n as u32));
}

} // verus!

verus! {

/// Settings for one display: how its brightness follows the curves.
///
/// `mode` is one of "global" (follow the shared curve), "offset" (the shared curve
/// shifted by `offset` percentage points), "custom" (follow `curve`, or the shared
/// curve when there is none) and "ignored" (leave the display alone); any other mode
/// behaves as "global".
#[derive(Debug)]
pub struct MonitorOverride {
    pub name: String,
    pub alias: Option<String>,
    pub mode: String,
    pub offset: i32,
    pub curve: Option<BrightnessCurve>,
}

/// What decides a display's brightness: the curve to evaluate and, in offset mode,
/// the shift to add to its value (the sum clamped to 0..=100).
pub struct Evaluation<'a> {
    pub curve: &'a BrightnessCurve,
    pub offset: Option<i32>,
}

/// Two optional curves are both absent, or both present and the same.
pub open spec fn same_curve_option(a: Option<BrightnessCurve>, b: Option<BrightnessCurve>) -> bool {
    match (a, b) {
        (None, None) => true,
        (Some(x), Some(y)) => crate::curve::same_curve(x, y),
        _ => false,
    }
}

/// Two display settings agree in every field.
pub open spec fn same_override(a: MonitorOverride, b: MonitorOverride) -> bool {
    &&& a.name == b.name
    &&& a.alias == b.alias
    &&& a.mode == b.mode
    &&& a.offset == b.offset
    &&& same_curve_option(a.curve, b.curve)
}

/// The label shown for a display: its alias when it has a non-empty one, else its
/// cleaned device name.
pub open spec fn label_of(m: MonitorOverride) -> Seq<char> {
    match m.alias {
        Some(a) if a@.len() > 0 => a@,
        _ => clean_name(m.name@),
    }
}

impl Clone for MonitorOverride {
    fn clone(&self) -> (r: Self)
        ensures
            same_override(r, *self),
    {
        let curve = match &self.curve {
            Some(c) => Some(c.clone()),
            None => None,
        };
        let alias = match &self.alias {
            Some(a) => Some(a.clone()),
            None => None,
        };
        MonitorOverride {
            name: self.name.clone(),
            alias,
            mode: self.mode.clone(),
            offset: self.offset,
            curve,
        }
    }
}

impl MonitorOverride {
    /// What decides this display's brightness given the shared curve; `None` when the
    /// display is ignored.
    pub open spec fn evaluation_spec<'a>(self, global_curve: &'a BrightnessCurve) -> Option<Evaluation<'a>> {
        if self.mode@ == "ignored"@ {
            None
        } else if self.mode@ == "offset"@ {
            Some(Evaluation { curve: global_curve, offset: Some(self.offset) })
        } else if self.mode@ == "custom"@ {
            match self.curve {
                Some(c) => Some(Evaluation { curve: &c, offset: None }),
                None => Some(Evaluation { curve: global_curve, offset: None }),
            }
        } else {
            Some(Evaluation { curve: global_curve, offset: None })
        }
    }

    /// Settings for a newly seen display: follow the shared curve, no alias, no offset.
    pub fn new_global(name: String) -> (m: Self)
        ensures
            m.name == name,
            m.alias is None,
            m.mode@ == "global"@,
            m.offset == 0,
            m.curve is None,
    {
        MonitorOverride {
            alias: None,
            name,
            mode: crate::text::string_from("global"),
            offset: 0,
            curve: None,
        }
    }

    /// The label shown for this display.
    pub fn display_label(&self) -> (r: String)
        ensures
            r@ == label_of(*self),
    {
        if let Some(alias) = &self.alias {
            if !alias.as_str().is_empty() {
                return alias.clone();
            }
        }
        clean_display_name(self.name.as_str())
    }

    /// What decides this display's brightness, given the shared curve; `None` when
    /// the display is ignored.
    pub fn evaluate<'a>(&'a self, global_curve: &'a BrightnessCurve) -> (r: Option<Evaluation<'a>>)
        ensures
            r == self.evaluation_spec(global_curve),
            self.mode@ == "ignored"@ ==> r is None,
            self.mode@ == "offset"@ ==> (r matches Some(e) && *e.curve == *global_curve
                && e.offset == Some(self.offset)),
            self.mode@ == "custom"@ ==> (r matches Some(e) && e.offset is None && match self.curve {
                Some(c) => *e.curve == c,
                None => *e.curve == *global_curve,
            }),
            self.mode@ != "ignored"@ && self.mode@ != "offset"@ && self.mode@ != "custom"@ ==> (
            r matches Some(e) && *e.curve == *global_curve && e.offset is None),
    {
        proof {
            reveal_strlit("ignored");
            reveal_strlit("offset");
            reveal_strlit("custom");
            assert("ignored"@.len() != "offset"@.len());
            assert("ignored"@.len() != "custom"@.len());
            assert("offset"@[0] != "custom"@[0]);
        }
        if str_eq(self.mode.as_str(), "ignored") {
            None
        } else if str_eq(self.mode.as_str(), "offset") {
            Some(Evaluation { curve: global_curve, offset: Some(self.offset) })
        } else if str_eq(self.mode.as_str(), "custom") {
            match &self.curve {
                Some(c) => Some(Evaluation { curve: c, offset: None }),
                None => Some(Evaluation { curve: global_curve, offset: None }),
            }
        } else {
            Some(Evaluation { curve: global_curve, offset: None })
        }
    }
}

} // verus!
