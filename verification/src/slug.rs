use vstd::prelude::*;

verus! {

/// Whether `c` has the Unicode `White_Space` property (PropList.txt), which is what
/// `char::is_whitespace` and `str::trim` go by: U+0009..U+000D, U+0020, U+0085,
/// U+00A0, U+1680, U+2000..U+200A, U+2028, U+2029, U+202F, U+205F and U+3000.
pub open spec fn is_white_space(c: char) -> bool {
    let u = c as u32;
    ||| 0x09 <= u <= 0x0D
    ||| u == 0x20
    ||| u == 0x85
    ||| u == 0xA0
    ||| u == 0x1680
    ||| 0x2000 <= u <= 0x200A
    ||| u == 0x2028
    ||| u == 0x2029
    ||| u == 0x202F
    ||| u == 0x205F
    ||| u == 0x3000
}

/// Whether `c` is white space, as `char::is_whitespace` answers.
fn char_is_white_space(c: char) -> (b: bool)
    ensures
        b == is_white_space(c),
{
    let u = c as u32;
    (0x09 <= u && u <= 0x0D) || u == 0x20 || u == 0x85 || u == 0xA0 || u == 0x1680 || (0x2000
        <= u && u <= 0x200A) || u == 0x2028 || u == 0x2029 || u == 0x202F || u == 0x205F || u
        == 0x3000
}

/// Every character of `s` is ASCII.
pub open spec fn all_ascii(s: Seq<char>) -> bool {
    forall|k: int| 0 <= k < s.len() ==> (#[trigger] s[k] as u32) < 128
}

/// `c` with an ASCII capital letter turned into its small letter.
pub open spec fn ascii_lower(c: char) -> char {
    if 0x41 <= (c as u32) <= 0x5A {
        ((c as u32) + 32) as char
    } else {
        c
    }
}

/// `c` with an ASCII small letter turned into its capital letter.
pub open spec fn ascii_upper(c: char) -> char {
    if 0x61 <= (c as u32) <= 0x7A {
        ((c as u32) - 32) as char
    } else {
        c
    }
}

/// `s` with its ASCII capital letters made small.
pub open spec fn ascii_lowercase(s: Seq<char>) -> Seq<char> {
    s.map_values(|c: char| ascii_lower(c))
}

/// `s` with its ASCII small letters made capital.
pub open spec fn ascii_uppercase(s: Seq<char>) -> Seq<char> {
    s.map_values(|c: char| ascii_upper(c))
}

/// What `str::to_lowercase` gives for a string: its Unicode lowercase mapping.
pub uninterp spec fn unicode_lowercase(s: Seq<char>) -> Seq<char>;

/// Calls `str::to_lowercase`. The contract claims that the result is a function of the
/// characters of the input alone, named `unicode_lowercase`, and that an ASCII string
/// lowercases character by character to its ASCII lowercase (the Unicode lowercase
/// mapping of an ASCII character is its ASCII lowercase, one character for one). The
/// mapping of other characters (which may change the number of characters) is not
/// stated.
#[verifier::external_body]
fn lowercase(s: &str) -> (r: String)
    ensures
        r@ == unicode_lowercase(s@),
        all_ascii(s@) ==> r@ == ascii_lowercase(s@),
{
    s.to_lowercase()
}

/// Calls `String::push`, which appends one character at the end of the string.
#[verifier::external_body]
fn push_char(s: &mut String, c: char)
    ensures
        final(s)@ == old(s)@.push(c),
{
    s.push(c)
}

/// `s` with its leading and trailing white space removed (what `str::trim` does).
pub open spec fn trim_white_space(s: Seq<char>) -> Seq<char>
    decreases s.len(),
{
    if s.len() == 0 {
        s
    } else if is_white_space(s[0]) {
        trim_white_space(s.drop_first())
    } else if is_white_space(s.last()) {
        trim_white_space(s.drop_last())
    } else {
        s
    }
}

/// `s` with every space `' '` replaced by a hyphen `'-'`.
pub open spec fn spaces_to_hyphens(s: Seq<char>) -> Seq<char> {
    s.map_values(|c: char| if c == ' ' { '-' } else { c })
}

/// The slug of a project name: trimmed, lowercased, spaces turned into hyphens.
pub open spec fn slug_of(name: Seq<char>) -> Seq<char> {
    spaces_to_hyphens(unicode_lowercase(trim_white_space(name)))
}

/// The slug of a name, with ASCII lowercasing in place of the Unicode one: what the
/// slug of an ASCII name is.
pub open spec fn ascii_slug_of(name: Seq<char>) -> Seq<char> {
    spaces_to_hyphens(ascii_lowercase(trim_white_space(name)))
}

/// A string made of white space only trims to nothing.
proof fn lemma_trim_all_white(s: Seq<char>)
    requires
        forall|k: int| 0 <= k < s.len() ==> is_white_space(#[trigger] s[k]),
    ensures
        trim_white_space(s) == Seq::<char>::empty(),
    decreases s.len(),
{
    if s.len() > 0 {
        let t = s.drop_first();
        assert forall|k: int| 0 <= k < t.len() implies is_white_space(#[trigger] t[k]) by {
            assert(t[k] == s[k + 1]);
        }
        lemma_trim_all_white(t);
    } else {
        assert(s =~= Seq::<char>::empty());
    }
}

/// Trimming keeps exactly the characters between the first and the last
/// character that is not white space.
proof fn lemma_trim_bounds(s: Seq<char>, a: int, b: int)
    requires
        0 <= a <= b <= s.len(),
        forall|k: int| 0 <= k < a ==> is_white_space(#[trigger] s[k]),
        forall|k: int| b <= k < s.len() ==> is_white_space(#[trigger] s[k]),
        a < b ==> !is_white_space(s[a]) && !is_white_space(s[b - 1]),
    ensures
        trim_white_space(s) == s.subrange(a, b),
    decreases s.len(),
{
    if a == b {
        assert forall|k: int| 0 <= k < s.len() implies is_white_space(#[trigger] s[k]) by {
            if k < a {
            } else {
            }
        }
        lemma_trim_all_white(s);
        assert(s.subrange(a, b) =~= Seq::<char>::empty());
    } else if a > 0 {
        let t = s.drop_first();
        assert(is_white_space(s[0]));
        assert forall|k: int| 0 <= k < a - 1 implies is_white_space(#[trigger] t[k]) by {
            assert(t[k] == s[k + 1]);
        }
        assert forall|k: int| b - 1 <= k < t.len() implies is_white_space(#[trigger] t[k]) by {
            assert(t[k] == s[k + 1]);
        }
        assert(t[a - 1] == s[a]);
        assert(t[b - 2] == s[b - 1]);
        lemma_trim_bounds(t, a - 1, b - 1);
        assert(t.subrange(a - 1, b - 1) =~= s.subrange(a, b));
    } else if b < s.len() {
        let t = s.drop_last();
        assert(is_white_space(s[s.len() - 1]));
        assert(!is_white_space(s[0]));
        assert forall|k: int| b <= k < t.len() implies is_white_space(#[trigger] t[k]) by {
            assert(t[k] == s[k]);
        }
        assert(t[0] == s[0]);
        assert(t[b - 1] == s[b - 1]);
        lemma_trim_bounds(t, a, b);
        assert(t.subrange(a, b) =~= s.subrange(a, b));
    } else {
        assert(!is_white_space(s[0]));
        assert(!is_white_space(s.last()));
        assert(s.subrange(0, s.len() as int) =~= s);
    }
}

/// `s` without its leading and trailing white space.
fn trim(s: &str) -> (r: &str)
    ensures
        r@ == trim_white_space(s@),
{
    let n = s.unicode_len();
    let mut start: usize = 0;
    loop
        invariant
            n == s@.len(),
            start <= n,
            forall|k: int| 0 <= k < start ==> is_white_space(#[trigger] s@[k]),
        ensures
            start <= n,
            forall|k: int| 0 <= k < start ==> is_white_space(#[trigger] s@[k]),
            start < n ==> !is_white_space(s@[start as int]),
        decreases n - start,
    {
        if start == n {
            break;
        }
        let c = s.get_char(start);
        if !char_is_white_space(c) {
            break;
        }
        start = start + 1;
    }
    let mut end: usize = n;
    loop
        invariant
            n == s@.len(),
            start <= end <= n,
            forall|k: int| end <= k < n ==> is_white_space(#[trigger] s@[k]),
            start < n ==> !is_white_space(s@[start as int]),
        ensures
            start <= end <= n,
            forall|k: int| end <= k < n ==> is_white_space(#[trigger] s@[k]),
            start < end ==> !is_white_space(s@[end - 1]),
        decreases end,
    {
        if end == start {
            break;
        }
        let c = s.get_char(end - 1);
        if !char_is_white_space(c) {
            break;
        }
        end = end - 1;
    }
    proof {
        lemma_trim_bounds(s@, start as int, end as int);
    }
    s.substring_char(start, end)
}

/// `s` with every space replaced by a hyphen.
fn hyphenate(s: &str) -> (r: String)
    ensures
        r@ == spaces_to_hyphens(s@),
{
    let n = s.unicode_len();
    let mut r = String::new();
    let mut i: usize = 0;
    while i < n
        invariant
            n == s@.len(),
            i <= n,
            r@ == spaces_to_hyphens(s@.take(i as int)),
        decreases n - i,
    {
        let c = s.get_char(i);
        let d = if c == ' ' {
            '-'
        } else {
            c
        };
        push_char(&mut r, d);
        assert(s@.take(i + 1) == s@.take(i as int).push(c));
        assert(spaces_to_hyphens(s@.take(i + 1)) =~= spaces_to_hyphens(s@.take(i as int)).push(d));
        i = i + 1;
    }
    assert(s@.take(n as int) =~= s@);
    r
}

/// The slug of a project name: the name trimmed of surrounding white space,
/// lowercased, with each space replaced by a hyphen. It names the project's
/// directory and identifies the project in the registry.
pub fn to_slug(name: &str) -> (slug: String)
    ensures
        slug@ == slug_of(name@),
        all_ascii(name@) ==> slug@ == ascii_slug_of(name@),
{
    let trimmed = trim(name);
    proof {
        lemma_trim_keeps_ascii(name@);
    }
    let lowered = lowercase(trimmed);
    hyphenate(lowered.as_str())
}

/// A slug never holds a space.
pub proof fn slug_has_no_space(name: Seq<char>)
    ensures
        !slug_of(name).contains(' '),
{
    let s = slug_of(name);
    if s.contains(' ') {
        let k = choose|k: int| 0 <= k < s.len() && s[k] == ' ';
        assert(s[k] == ' ');
    }
}

/// Trimming twice is trimming once.
proof fn lemma_trim_idempotent(s: Seq<char>)
    ensures
        trim_white_space(trim_white_space(s)) == trim_white_space(s),
    decreases s.len(),
{
    if s.len() > 0 {
        if is_white_space(s[0]) {
            lemma_trim_idempotent(s.drop_first());
        } else if is_white_space(s.last()) {
            lemma_trim_idempotent(s.drop_last());
        }
    }
}

/// White space around a name does not count: a name trimmed first has the same slug.
pub proof fn slug_ignores_surrounding_white_space(name: Seq<char>)
    ensures
        slug_of(trim_white_space(name)) == slug_of(name),
{
    lemma_trim_idempotent(name);
}

/// Every character of `s` is white space.
pub open spec fn all_white_space(s: Seq<char>) -> bool {
    forall|k: int| 0 <= k < s.len() ==> is_white_space(#[trigger] s[k])
}

proof fn lemma_trim_padded(p: Seq<char>, n: Seq<char>, q: Seq<char>)
    requires
        all_white_space(p),
        all_white_space(q),
    ensures
        trim_white_space(p + n + q) == trim_white_space(n),
    decreases p.len() + n.len() + q.len(),
{
    let s = p + n + q;
    if s.len() == 0 {
        assert(n =~= Seq::<char>::empty());
    } else if p.len() > 0 {
        assert(s[0] == p[0]);
        let p2 = p.drop_first();
        assert forall|k: int| 0 <= k < p2.len() implies is_white_space(#[trigger] p2[k]) by {
            assert(p2[k] == p[k + 1]);
        }
        assert(s.drop_first() =~= p2 + n + q);
        lemma_trim_padded(p2, n, q);
    } else if n.len() == 0 {
        assert(s =~= q);
        lemma_trim_all_white(q);
        assert(n =~= Seq::<char>::empty());
    } else if is_white_space(n[0]) {
        assert(s[0] == n[0]);
        let n2 = n.drop_first();
        assert(s.drop_first() =~= p + n2 + q);
        lemma_trim_padded(p, n2, q);
    } else if q.len() > 0 {
        assert(s[0] == n[0]);
        assert(s.last() == q.last());
        let q2 = q.drop_last();
        assert forall|k: int| 0 <= k < q2.len() implies is_white_space(#[trigger] q2[k]) by {
            assert(q2[k] == q[k]);
        }
        assert(s.drop_last() =~= p + n + q2);
        lemma_trim_padded(p, n, q2);
    } else {
        assert(s =~= n);
    }
}

/// White space added around a name does not change its slug.
pub proof fn slug_ignores_padding(padding_before: Seq<char>, name: Seq<char>, padding_after: Seq<char>)
    requires
        all_white_space(padding_before),
        all_white_space(padding_after),
    ensures
        slug_of(padding_before + name + padding_after) == slug_of(name),
{
    lemma_trim_padded(padding_before, name, padding_after);
}

/// Trimming keeps an ASCII string ASCII.
proof fn lemma_trim_keeps_ascii(s: Seq<char>)
    ensures
        all_ascii(s) ==> all_ascii(trim_white_space(s)),
    decreases s.len(),
{
    if s.len() > 0 && all_ascii(s) {
        if is_white_space(s[0]) {
            let t = s.drop_first();
            assert forall|k: int| 0 <= k < t.len() implies (#[trigger] t[k] as u32) < 128 by {
                assert(t[k] == s[k + 1]);
            }
            lemma_trim_keeps_ascii(t);
        } else if is_white_space(s.last()) {
            let t = s.drop_last();
            assert forall|k: int| 0 <= k < t.len() implies (#[trigger] t[k] as u32) < 128 by {
                assert(t[k] == s[k]);
            }
            lemma_trim_keeps_ascii(t);
        }
    }
}

/// A trimmed string begins and ends with a character that is not white space.
proof fn lemma_trim_ends(s: Seq<char>)
    ensures
        trim_white_space(s).len() > 0 ==> !is_white_space(trim_white_space(s)[0])
            && !is_white_space(trim_white_space(s).last()),
    decreases s.len(),
{
    if s.len() > 0 {
        if is_white_space(s[0]) {
            lemma_trim_ends(s.drop_first());
        } else if is_white_space(s.last()) {
            lemma_trim_ends(s.drop_last());
        }
    }
}

/// A string that begins and ends with a character that is not white space is its
/// own trim.
proof fn lemma_trim_fixed(s: Seq<char>)
    requires
        s.len() > 0 ==> !is_white_space(s[0]) && !is_white_space(s.last()),
    ensures
        trim_white_space(s) == s,
{
}

/// Trimming commutes with a change of characters that keeps white space white space
/// and the rest not.
proof fn lemma_trim_commutes(s: Seq<char>, f: spec_fn(char) -> char)
    requires
        forall|c: char| #[trigger] is_white_space(f(c)) == is_white_space(c),
    ensures
        trim_white_space(s.map_values(f)) == trim_white_space(s).map_values(f),
    decreases s.len(),
{
    let m = s.map_values(f);
    if s.len() == 0 {
        assert(m =~= Seq::<char>::empty());
        assert(trim_white_space(s).map_values(f) =~= Seq::<char>::empty());
    } else {
        assert(m[0] == f(s[0]));
        assert(m.last() == f(s.last()));
        if is_white_space(s[0]) {
            assert(m.drop_first() =~= s.drop_first().map_values(f));
            lemma_trim_commutes(s.drop_first(), f);
        } else if is_white_space(s.last()) {
            assert(m.drop_last() =~= s.drop_last().map_values(f));
            lemma_trim_commutes(s.drop_last(), f);
        }
    }
}

/// Changing the case of ASCII letters keeps white space white space and the rest not.
proof fn lemma_ascii_case_keeps_white_space()
    ensures
        forall|c: char| #[trigger] is_white_space(ascii_lower(c)) == is_white_space(c),
        forall|c: char| #[trigger] is_white_space(ascii_upper(c)) == is_white_space(c),
{
}

/// The slug of a name (taken with ASCII lowercasing) is its own trim: it neither
/// begins nor ends with white space.
pub proof fn ascii_slug_is_trimmed(name: Seq<char>)
    ensures
        trim_white_space(ascii_slug_of(name)) == ascii_slug_of(name),
{
    let t = trim_white_space(name);
    let l = ascii_lowercase(t);
    let h = ascii_slug_of(name);
    lemma_trim_ends(name);
    lemma_ascii_case_keeps_white_space();
    if t.len() > 0 {
        assert(l[0] == ascii_lower(t[0]));
        assert(l.last() == ascii_lower(t.last()));
        assert(is_white_space(' '));
        assert(h[0] == l[0]);
        assert(h.last() == l.last());
    }
    lemma_trim_fixed(h);
}

/// Taking the slug (with ASCII lowercasing) of a slug changes nothing.
pub proof fn ascii_slug_idempotent(name: Seq<char>)
    ensures
        ascii_slug_of(ascii_slug_of(name)) == ascii_slug_of(name),
{
    let h = ascii_slug_of(name);
    ascii_slug_is_trimmed(name);
    let l = ascii_lowercase(h);
    assert(l =~= h) by {
        assert forall|k: int| 0 <= k < h.len() implies #[trigger] l[k] == h[k] by {
            let t = trim_white_space(name);
            let c = ascii_lower(t[k]);
            assert(h[k] == (if c == ' ' { '-' } else { c }));
        }
    }
    assert(spaces_to_hyphens(h) =~= h) by {
        assert forall|k: int| 0 <= k < h.len() implies #[trigger] spaces_to_hyphens(h)[k] == h[k] by {
            let t = trim_white_space(name);
            let c = ascii_lower(t[k]);
            assert(h[k] == (if c == ' ' { '-' } else { c }));
        }
    }
}

/// Names that differ only in the case of ASCII letters have the same slug (taken
/// with ASCII lowercasing).
pub proof fn ascii_slug_ignores_case(name: Seq<char>)
    ensures
        ascii_slug_of(ascii_uppercase(name)) == ascii_slug_of(name),
        ascii_slug_of(ascii_lowercase(name)) == ascii_slug_of(name),
{
    lemma_ascii_case_keeps_white_space();
    let t = trim_white_space(name);
    lemma_trim_commutes(name, |c: char| ascii_upper(c));
    lemma_trim_commutes(name, |c: char| ascii_lower(c));
    assert(ascii_uppercase(name) == name.map_values(|c: char| ascii_upper(c)));
    assert(ascii_lowercase(ascii_uppercase(t)) =~= ascii_lowercase(t));
    assert(ascii_lowercase(ascii_lowercase(t)) =~= ascii_lowercase(t));
}

/// The slug of an ASCII name is ASCII.
pub proof fn ascii_slug_keeps_ascii(name: Seq<char>)
    requires
        all_ascii(name),
    ensures
        all_ascii(ascii_slug_of(name)),
{
    lemma_trim_keeps_ascii(name);
    let t = trim_white_space(name);
    let h = ascii_slug_of(name);
    assert forall|k: int| 0 <= k < h.len() implies (#[trigger] h[k] as u32) < 128 by {
        assert((t[k] as u32) < 128);
    }
}

/// For an ASCII name, `to_slug` is the ASCII slug, so: the slug of a slug is the
/// slug itself, a slug is its own trim, and names that differ only in the case of
/// their letters have the same slug.
pub proof fn ascii_name_slug_laws(name: Seq<char>)
    requires
        all_ascii(name),
    ensures
        all_ascii(ascii_slug_of(name)),
        ascii_slug_of(ascii_slug_of(name)) == ascii_slug_of(name),
        trim_white_space(ascii_slug_of(name)) == ascii_slug_of(name),
        ascii_slug_of(ascii_uppercase(name)) == ascii_slug_of(name),
        ascii_slug_of(ascii_lowercase(name)) == ascii_slug_of(name),
        all_ascii(ascii_uppercase(name)),
        all_ascii(ascii_lowercase(name)),
{
    ascii_slug_keeps_ascii(name);
    ascii_slug_idempotent(name);
    ascii_slug_is_trimmed(name);
    ascii_slug_ignores_case(name);
    assert forall|k: int| 0 <= k < name.len() implies (#[trigger] ascii_uppercase(name)[k] as u32) < 128 by {
        assert((name[k] as u32) < 128);
    }
    assert forall|k: int| 0 <= k < name.len() implies (#[trigger] ascii_lowercase(name)[k] as u32) < 128 by {
        assert((name[k] as u32) < 128);
    }
}

/// Among ASCII characters, exactly tab, line feed, vertical tab, form feed, carriage
/// return and space are white space; in particular no ASCII letter or digit is.
pub proof fn ascii_white_space_is_exactly_the_controls_and_space(c: char)
    requires
        (c as u32) < 128,
    ensures
        is_white_space(c) <==> (9 <= (c as u32) <= 13 || (c as u32) == 32),
        (0x30 <= (c as u32) <= 0x39 || 0x41 <= (c as u32) <= 0x5A || 0x61 <= (c as u32) <= 0x7A)
            ==> !is_white_space(c),
{
}

/// A name that neither begins nor ends with white space is not shortened by trimming,
/// so its slug has as many characters as the name when the name is ASCII; and the
/// slug keeps each character, lowercased, a space becoming a hyphen.
pub proof fn slug_keeps_every_character_of_a_trimmed_name(name: Seq<char>)
    requires
        name.len() > 0 ==> !is_white_space(name[0]) && !is_white_space(name.last()),
    ensures
        trim_white_space(name) == name,
        ascii_slug_of(name).len() == name.len(),
        forall|k: int| 0 <= k < name.len() ==> #[trigger] ascii_slug_of(name)[k] == (
            if name[k] == ' ' { '-' } else { ascii_lower(name[k]) }),
{
    lemma_trim_fixed(name);
    assert forall|k: int| 0 <= k < name.len() implies #[trigger] ascii_slug_of(name)[k] == (
        if name[k] == ' ' { '-' } else { ascii_lower(name[k]) }) by {
        assert(ascii_lower(' ') == ' ');
    }
}

} // verus!
