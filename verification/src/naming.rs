//! What the service generator decides on plain values: the names it gives to
//! what it generates (the module that holds a service's dispatch code, the
//! method id constants, the per-method request structs), the method ids,
//! which arguments a method passes on, and whether a service is local
//! (`?Send`). Also the laws that relate snake_case and PascalCase.

use vstd::prelude::*;
use vstd::string::*;

verus! {

#[verifier::external_type_specification]
#[verifier::external_body]
pub struct ExToLowercase(core::char::ToLowercase);

#[verifier::external_type_specification]
#[verifier::external_body]
pub struct ExToUppercase(core::char::ToUppercase);

/// Whether `c` has Unicode's `Uppercase` property, as `char::is_uppercase` says.
pub uninterp spec fn is_uppercase_char(c: char) -> bool;

/// The chars of `c`'s lowercase mapping, as `char::to_lowercase` yields them.
pub uninterp spec fn lowercase_mapping(c: char) -> Seq<char>;

/// The chars of `c`'s uppercase mapping, as `char::to_uppercase` yields them.
pub uninterp spec fn uppercase_mapping(c: char) -> Seq<char>;

/// The chars that a `ToLowercase` iterator has yet to yield.
pub uninterp spec fn lowercase_remaining(it: core::char::ToLowercase) -> Seq<char>;

/// The chars that a `ToUppercase` iterator has yet to yield.
pub uninterp spec fn uppercase_remaining(it: core::char::ToUppercase) -> Seq<char>;

/// The uppercase form of a string, as `str::to_uppercase` returns it.
pub uninterp spec fn uppercase_string(s: Seq<char>) -> Seq<char>;

/// Whether `c` is an ASCII char.
pub open spec fn is_ascii_char(c: char) -> bool {
    c <= '\u{7f}'
}

/// ASCII's lowercase of `c`: `A`..=`Z` become `a`..=`z`; other chars stay.
pub open spec fn ascii_lower(c: char) -> char {
    if 'A' <= c && c <= 'Z' {
        ((c as u32) + 32) as char
    } else {
        c
    }
}

/// ASCII's uppercase of `c`: `a`..=`z` become `A`..=`Z`; other chars stay.
pub open spec fn ascii_upper(c: char) -> char {
    if 'a' <= c && c <= 'z' {
        ((c as u32) - 32) as char
    } else {
        c
    }
}

/// Whether `c` counts as uppercase: for ASCII, `A`..=`Z` exactly.
pub open spec fn is_upper(c: char) -> bool {
    if is_ascii_char(c) {
        'A' <= c && c <= 'Z'
    } else {
        is_uppercase_char(c)
    }
}

/// The first char of `c`'s lowercase mapping: for ASCII, `ascii_lower(c)`.
pub open spec fn lower_first(c: char) -> char {
    if is_ascii_char(c) {
        ascii_lower(c)
    } else {
        lowercase_mapping(c)[0]
    }
}

/// The first char of `c`'s uppercase mapping: for ASCII, `ascii_upper(c)`.
pub open spec fn upper_first(c: char) -> char {
    if is_ascii_char(c) {
        ascii_upper(c)
    } else {
        uppercase_mapping(c)[0]
    }
}

/// Calls `char::is_uppercase`. Claimed: for an ASCII char it is true exactly
/// on `A`..=`Z` (the ASCII chars with Unicode's `Uppercase` property); for
/// other chars nothing beyond its being a function of `c`.
#[verifier::external_body]
fn char_is_uppercase(c: char) -> (b: bool)
    ensures
        is_ascii_char(c) ==> b == ('A' <= c && c <= 'Z'),
        !is_ascii_char(c) ==> b == is_uppercase_char(c),
{
    c.is_uppercase()
}

/// Calls `char::to_lowercase`. Claimed: the iterator holds one or more chars
/// (as the documentation says), the ASCII lowercase of an ASCII char alone,
/// and otherwise `lowercase_mapping(c)`.
#[verifier::external_body]
fn char_to_lowercase(c: char) -> (it: core::char::ToLowercase)
    ensures
        lowercase_remaining(it).len() >= 1,
        is_ascii_char(c) ==> lowercase_remaining(it) == seq![ascii_lower(c)],
        !is_ascii_char(c) ==> lowercase_remaining(it) == lowercase_mapping(c),
{
    c.to_lowercase()
}

/// Calls `Iterator::next` on a `ToLowercase`: yields its first remaining
/// char and drops it, or `None` when nothing remains.
#[verifier::external_body]
fn lowercase_next(it: &mut core::char::ToLowercase) -> (r: Option<char>)
    ensures
        lowercase_remaining(*old(it)).len() > 0 ==> r == Some(lowercase_remaining(*old(it))[0]),
        lowercase_remaining(*old(it)).len() > 0 ==> lowercase_remaining(*final(it))
            == lowercase_remaining(*old(it)).drop_first(),
        lowercase_remaining(*old(it)).len() == 0 ==> r is None,
{
    it.next()
}

/// Calls `char::to_uppercase`. Claimed: the iterator holds one or more chars
/// (as the documentation says), the ASCII uppercase of an ASCII char alone,
/// and otherwise `uppercase_mapping(c)`.
#[verifier::external_body]
fn char_to_uppercase(c: char) -> (it: core::char::ToUppercase)
    ensures
        uppercase_remaining(it).len() >= 1,
        is_ascii_char(c) ==> uppercase_remaining(it) == seq![ascii_upper(c)],
        !is_ascii_char(c) ==> uppercase_remaining(it) == uppercase_mapping(c),
{
    c.to_uppercase()
}

/// Calls `Iterator::next` on a `ToUppercase`: yields its first remaining
/// char and drops it, or `None` when nothing remains.
#[verifier::external_body]
fn uppercase_next(it: &mut core::char::ToUppercase) -> (r: Option<char>)
    ensures
        uppercase_remaining(*old(it)).len() > 0 ==> r == Some(uppercase_remaining(*old(it))[0]),
        uppercase_remaining(*old(it)).len() > 0 ==> uppercase_remaining(*final(it))
            == uppercase_remaining(*old(it)).drop_first(),
        uppercase_remaining(*old(it)).len() == 0 ==> r is None,
{
    it.next()
}

/// The first char of `c`'s lowercase mapping.
fn lowercase_first(c: char) -> (r: char)
    ensures
        r == lower_first(c),
{
    let mut it = char_to_lowercase(c);
    lowercase_next(&mut it).unwrap()
}

/// The first char of `c`'s uppercase mapping.
fn uppercase_first(c: char) -> (r: char)
    ensures
        r == upper_first(c),
{
    let mut it = char_to_uppercase(c);
    uppercase_next(&mut it).unwrap()
}

/// The uppercase form of a string: for an ASCII string, each char in ASCII uppercase.
pub open spec fn uppercase_of(s: Seq<char>) -> Seq<char> {
    if vstd::utf8::is_ascii_chars(s) {
        s.map_values(|c: char| ascii_upper(c))
    } else {
        uppercase_string(s)
    }
}

/// Calls `str::to_uppercase`. Claimed: an ASCII string comes back with each
/// char in ASCII uppercase; of other strings only that the result depends on
/// `s` alone.
#[verifier::external_body]
fn str_to_uppercase(s: &str) -> (r: String)
    ensures
        vstd::utf8::is_ascii_chars(s@) ==> r@ == s@.map_values(|c: char| ascii_upper(c)),
        !vstd::utf8::is_ascii_chars(s@) ==> r@ == uppercase_string(s@),
{
    s.to_uppercase()
}

/// Calls `String::push`, which appends `c` to `s`.
#[verifier::external_body]
fn string_push(s: &mut String, c: char)
    ensures
        final(s)@ == old(s)@.push(c),
{
    s.push(c)
}

/// The snake_case form of a name: each uppercase char becomes its lowercase
/// form, preceded by `_` unless it is the first char.
pub open spec fn snake_case(s: Seq<char>) -> Seq<char>
    decreases s.len(),
{
    if s.len() == 0 {
        Seq::empty()
    } else {
        let c = s.last();
        snake_case(s.drop_last()) + if is_upper(c) {
            if s.len() == 1 {
                seq![lower_first(c)]
            } else {
                seq!['_', lower_first(c)]
            }
        } else {
            seq![c]
        }
    }
}

/// The PascalCase form of a name: `_` is dropped, and the char that starts
/// the name or follows a `_` becomes its uppercase form.
pub open spec fn pascal_case(s: Seq<char>) -> Seq<char>
    decreases s.len(),
{
    if s.len() == 0 {
        Seq::empty()
    } else {
        let c = s.last();
        let prefix = s.drop_last();
        pascal_case(prefix) + if c == '_' {
            Seq::empty()
        } else if prefix.len() == 0 || prefix.last() == '_' {
            seq![upper_first(c)]
        } else {
            seq![c]
        }
    }
}

/// No char of `s` is an ASCII uppercase letter.
pub open spec fn has_no_ascii_upper(s: Seq<char>) -> bool {
    forall|i: int| 0 <= i < s.len() ==> !('A' <= #[trigger] s[i] && s[i] <= 'Z')
}

/// No char of `s` is `_`.
pub open spec fn has_no_underscore(s: Seq<char>) -> bool {
    forall|i: int| 0 <= i < s.len() ==> #[trigger] s[i] != '_'
}

/// `s` is a snake_case name that PascalCase turns into a name and back: ASCII,
/// no uppercase letter, not starting with `_`, and every `_` followed by a
/// lowercase letter (so no `__` and no trailing `_`).
pub open spec fn is_plain_snake(s: Seq<char>) -> bool {
    &&& vstd::utf8::is_ascii_chars(s)
    &&& has_no_ascii_upper(s)
    &&& (s.len() > 0 ==> s[0] != '_')
    &&& forall|i: int|
        0 <= i < s.len() && #[trigger] s[i] == '_' ==> i + 1 < s.len() && 'a' <= s[i + 1] && s[i
            + 1] <= 'z'
}

/// `s` is a PascalCase name that snake_case turns into a name and back:
/// ASCII, no `_`, and not starting with a lowercase letter.
pub open spec fn is_plain_pascal(s: Seq<char>) -> bool {
    &&& vstd::utf8::is_ascii_chars(s)
    &&& has_no_underscore(s)
    &&& (s.len() > 0 ==> !('a' <= s[0] && s[0] <= 'z'))
}

proof fn lemma_snake_push(t: Seq<char>, x: char)
    ensures
        snake_case(t.push(x)) == snake_case(t) + if is_upper(x) {
            if t.len() == 0 {
                seq![lower_first(x)]
            } else {
                seq!['_', lower_first(x)]
            }
        } else {
            seq![x]
        },
{
    assert(t.push(x).drop_last() =~= t);
}

proof fn lemma_pascal_push(t: Seq<char>, x: char)
    ensures
        pascal_case(t.push(x)) == pascal_case(t) + if x == '_' {
            Seq::empty()
        } else if t.len() == 0 || t.last() == '_' {
            seq![upper_first(x)]
        } else {
            seq![x]
        },
{
    assert(t.push(x).drop_last() =~= t);
}

/// The snake_case form of an ASCII name is ASCII and has no uppercase letter.
proof fn lemma_snake_case_output(s: Seq<char>)
    requires
        vstd::utf8::is_ascii_chars(s),
    ensures
        vstd::utf8::is_ascii_chars(snake_case(s)),
        has_no_ascii_upper(snake_case(s)),
    decreases s.len(),
{
    if s.len() > 0 {
        let p = s.drop_last();
        let c = s.last();
        assert(s =~= p.push(c));
        assert(vstd::utf8::is_ascii_chars(p)) by {
            assert forall|i: int| 0 <= i < p.len() implies '\0' <= #[trigger] p[i] <= '\u{7f}' by {
                assert(p[i] == s[i]);
            }
        }
        assert(is_ascii_char(c)) by {
            assert(s[s.len() - 1] == c);
        }
        lemma_snake_case_output(p);
        lemma_snake_push(p, c);
    }
}

/// A name with no uppercase letter is its own snake_case form.
proof fn lemma_snake_case_fixed(t: Seq<char>)
    requires
        vstd::utf8::is_ascii_chars(t),
        has_no_ascii_upper(t),
    ensures
        snake_case(t) == t,
    decreases t.len(),
{
    if t.len() > 0 {
        let p = t.drop_last();
        let c = t.last();
        assert(t =~= p.push(c));
        assert(t[t.len() - 1] == c);
        assert(vstd::utf8::is_ascii_chars(p)) by {
            assert forall|i: int| 0 <= i < p.len() implies '\0' <= #[trigger] p[i] <= '\u{7f}' by {
                assert(p[i] == t[i]);
            }
        }
        assert(has_no_ascii_upper(p)) by {
            assert forall|i: int| 0 <= i < p.len() implies !('A' <= #[trigger] p[i] && p[i] <= 'Z') by {
                assert(p[i] == t[i]);
            }
        }
        lemma_snake_case_fixed(p);
        lemma_snake_push(p, c);
    }
}

/// snake_case does nothing to an ASCII name that is already in snake_case.
pub proof fn lemma_snake_case_idempotent(s: Seq<char>)
    requires
        vstd::utf8::is_ascii_chars(s),
    ensures
        snake_case(snake_case(s)) == snake_case(s),
{
    lemma_snake_case_output(s);
    lemma_snake_case_fixed(snake_case(s));
}

/// A name whose last char is not `_` has a non-empty PascalCase form.
proof fn lemma_pascal_case_nonempty(p: Seq<char>)
    requires
        p.len() > 0,
        p.last() != '_',
    ensures
        pascal_case(p).len() > 0,
{
    assert(p =~= p.drop_last().push(p.last()));
    lemma_pascal_push(p.drop_last(), p.last());
}

/// The PascalCase form of an ASCII name is ASCII, has no `_`, and starts
/// with a char that ASCII uppercase leaves as it is.
proof fn lemma_pascal_case_output(s: Seq<char>)
    requires
        vstd::utf8::is_ascii_chars(s),
    ensures
        vstd::utf8::is_ascii_chars(pascal_case(s)),
        has_no_underscore(pascal_case(s)),
        pascal_case(s).len() > 0 ==> ascii_upper(pascal_case(s)[0]) == pascal_case(s)[0],
    decreases s.len(),
{
    if s.len() > 0 {
        let p = s.drop_last();
        let c = s.last();
        assert(s =~= p.push(c));
        assert(s[s.len() - 1] == c);
        assert(vstd::utf8::is_ascii_chars(p)) by {
            assert forall|i: int| 0 <= i < p.len() implies '\0' <= #[trigger] p[i] <= '\u{7f}' by {
                assert(p[i] == s[i]);
            }
        }
        lemma_pascal_case_output(p);
        lemma_pascal_push(p, c);
        if c != '_' && (p.len() == 0 || p.last() == '_') {
            if pascal_case(p).len() == 0 {
                assert(pascal_case(s) =~= seq![ascii_upper(c)]);
            }
        } else if c != '_' {
            lemma_pascal_case_nonempty(p);
        }
        let r = pascal_case(s);
        assert(r == pascal_case(p) + r.skip(pascal_case(p).len() as int));
        assert(r.len() > 0 && pascal_case(p).len() > 0 ==> r[0] == pascal_case(p)[0]);
    }
}

/// A name without `_` turns into PascalCase by uppercasing its first char.
proof fn lemma_pascal_case_without_underscore(t: Seq<char>)
    requires
        has_no_underscore(t),
    ensures
        pascal_case(t) == if t.len() == 0 {
            t
        } else {
            seq![upper_first(t[0])] + t.skip(1)
        },
    decreases t.len(),
{
    if t.len() > 0 {
        let p = t.drop_last();
        let c = t.last();
        assert(t =~= p.push(c));
        assert(t[t.len() - 1] == c);
        assert(has_no_underscore(p)) by {
            assert forall|i: int| 0 <= i < p.len() implies #[trigger] p[i] != '_' by {
                assert(p[i] == t[i]);
            }
        }
        lemma_pascal_case_without_underscore(p);
        lemma_pascal_push(p, c);
        if p.len() > 0 {
            assert(p.last() == t[p.len() - 1]);
            assert(p[0] == t[0]);
            assert(pascal_case(t) =~= seq![upper_first(t[0])] + t.skip(1));
        } else {
            assert(pascal_case(t) =~= seq![upper_first(t[0])] + t.skip(1));
        }
    }
}

/// PascalCase does nothing to an ASCII name that is already in PascalCase.
pub proof fn lemma_pascal_case_idempotent(s: Seq<char>)
    requires
        vstd::utf8::is_ascii_chars(s),
    ensures
        pascal_case(pascal_case(s)) == pascal_case(s),
{
    let p = pascal_case(s);
    lemma_pascal_case_output(s);
    lemma_pascal_case_without_underscore(p);
    if p.len() > 0 {
        assert(is_ascii_char(p[0]));
        assert(p =~= seq![p[0]] + p.skip(1));
    }
}

/// A plain snake_case name survives PascalCase and back:
/// `get_vm_status` -> `GetVmStatus` -> `get_vm_status`.
pub proof fn lemma_snake_of_pascal(s: Seq<char>)
    requires
        is_plain_snake(s),
    ensures
        snake_case(pascal_case(s)) == s,
    decreases s.len(),
{
    if s.len() > 0 {
        let p = s.drop_last();
        let c = s.last();
        let n = s.len() as int;
        assert(s =~= p.push(c));
        assert(s[n - 1] == c);
        assert(c != '_');
        assert(is_ascii_char(c) && !('A' <= c && c <= 'Z'));
        lemma_pascal_push(p, c);
        if p.len() == 0 {
            let u = upper_first(c);
            assert(pascal_case(s) =~= seq![u]);
            assert(seq![u] =~= Seq::<char>::empty().push(u));
            lemma_snake_push(Seq::empty(), u);
            if 'a' <= c && c <= 'z' {
                assert(is_upper(u) && lower_first(u) == c);
            } else {
                assert(u == c && !is_upper(u));
            }
            assert(snake_case(pascal_case(s)) =~= s);
        } else if p.last() != '_' {
            assert(p.last() == s[n - 2]);
            assert(is_plain_snake(p)) by {
                assert forall|i: int| 0 <= i < p.len() implies '\0' <= #[trigger] p[i] <= '\u{7f}' by {
                    assert(p[i] == s[i]);
                }
                assert forall|i: int| 0 <= i < p.len() implies !('A' <= #[trigger] p[i] && p[i] <= 'Z') by {
                    assert(p[i] == s[i]);
                }
                assert forall|i: int| 0 <= i < p.len() && #[trigger] p[i] == '_' implies i + 1 < p.len()
                    && 'a' <= p[i + 1] && p[i + 1] <= 'z' by {
                    assert(p[i] == s[i]);
                    assert(s[i] == '_');
                    assert(i + 1 < n);
                    assert(i != n - 2);
                    assert(p[i + 1] == s[i + 1]);
                }
                assert(p[0] == s[0]);
            }
            lemma_snake_of_pascal(p);
            assert(pascal_case(s) =~= pascal_case(p).push(c));
            lemma_snake_push(pascal_case(p), c);
            lemma_pascal_case_nonempty(p);
            assert(snake_case(pascal_case(s)) =~= p.push(c));
        } else {
            let q = p.drop_last();
            assert(p =~= q.push('_'));
            assert(s[n - 2] == '_');
            assert('a' <= c && c <= 'z');
            assert(q.len() > 0) by {
                if q.len() == 0 {
                    assert(s[0] == '_');
                }
            }
            assert(q.last() == s[n - 3]);
            assert(q.last() != '_') by {
                if s[n - 3] == '_' {
                    assert(s[n - 2] == '_');
                }
            }
            assert(is_plain_snake(q)) by {
                assert forall|i: int| 0 <= i < q.len() implies '\0' <= #[trigger] q[i] <= '\u{7f}' by {
                    assert(q[i] == s[i]);
                }
                assert forall|i: int| 0 <= i < q.len() implies !('A' <= #[trigger] q[i] && q[i] <= 'Z') by {
                    assert(q[i] == s[i]);
                }
                assert forall|i: int| 0 <= i < q.len() && #[trigger] q[i] == '_' implies i + 1 < q.len()
                    && 'a' <= q[i + 1] && q[i + 1] <= 'z' by {
                    assert(q[i] == s[i]);
                    assert(s[i] == '_');
                    assert(i != n - 3);
                    assert(q[i + 1] == s[i + 1]);
                }
                assert(q[0] == s[0]);
            }
            lemma_pascal_push(q, '_');
            lemma_snake_of_pascal(q);
            lemma_pascal_case_nonempty(q);
            let u = upper_first(c);
            assert(pascal_case(s) =~= pascal_case(q).push(u));
            lemma_snake_push(pascal_case(q), u);
            assert(snake_case(pascal_case(s)) =~= q.push('_').push(c));
        }
    }
}

/// A snake_case name never ends in `_` when the name does not.
proof fn lemma_snake_case_last(p: Seq<char>)
    requires
        p.len() > 0,
        is_ascii_char(p.last()),
        p.last() != '_',
    ensures
        snake_case(p).len() > 0,
        snake_case(p).last() != '_',
{
    assert(p =~= p.drop_last().push(p.last()));
    lemma_snake_push(p.drop_last(), p.last());
}

/// A plain PascalCase name survives snake_case and back:
/// `HTTPServer` -> `h_t_t_p_server` -> `HTTPServer`.
pub proof fn lemma_pascal_of_snake(s: Seq<char>)
    requires
        is_plain_pascal(s),
    ensures
        pascal_case(snake_case(s)) == s,
    decreases s.len(),
{
    if s.len() > 0 {
        let p = s.drop_last();
        let c = s.last();
        let n = s.len() as int;
        assert(s =~= p.push(c));
        assert(s[n - 1] == c);
        assert(c != '_' && is_ascii_char(c));
        lemma_snake_push(p, c);
        if p.len() > 0 {
            assert(is_plain_pascal(p)) by {
                assert forall|i: int| 0 <= i < p.len() implies '\0' <= #[trigger] p[i] <= '\u{7f}' by {
                    assert(p[i] == s[i]);
                }
                assert forall|i: int| 0 <= i < p.len() implies #[trigger] p[i] != '_' by {
                    assert(p[i] == s[i]);
                }
                assert(p[0] == s[0]);
            }
            lemma_pascal_of_snake(p);
            assert(p.last() == s[n - 2]);
            lemma_snake_case_last(p);
            let t = snake_case(p);
            if is_upper(c) {
                let l = lower_first(c);
                assert(t + seq!['_', l] =~= t.push('_').push(l));
                lemma_pascal_push(t.push('_'), l);
                lemma_pascal_push(t, '_');
                assert(t.push('_').last() == '_');
                assert(pascal_case(snake_case(s)) =~= p.push(c));
            } else {
                assert(t + seq![c] =~= t.push(c));
                lemma_pascal_push(t, c);
                assert(pascal_case(snake_case(s)) =~= p.push(c));
            }
        } else {
            assert(s[0] == c);
            if is_upper(c) {
                let l = lower_first(c);
                assert(seq![l] =~= Seq::<char>::empty().push(l));
                lemma_pascal_push(Seq::empty(), l);
            } else {
                assert(seq![c] =~= Seq::<char>::empty().push(c));
                lemma_pascal_push(Seq::empty(), c);
            }
            assert(pascal_case(snake_case(s)) =~= s);
        }
    }
}

/// Convert a name to snake_case.
pub fn to_snake_case(s: &str) -> (result: String)
    ensures
        result@ == snake_case(s@),
{
    let mut result = String::new();
    let mut first = true;
    proof {
        vstd::string::axiom_spec_iter(s);
    }
    for c in it: s.chars()
        invariant
            it.seq() == s@,
            first == (it.index() == 0),
            result@ == snake_case(s@.take(it.index())),
    {
        let ghost i = it.index();
        assert(s@.take(i + 1).drop_last() =~= s@.take(i));
        if char_is_uppercase(c) {
            if !first {
                string_push(&mut result, '_');
            }
            let lower = lowercase_first(c);
            string_push(&mut result, lower);
        } else {
            string_push(&mut result, c);
        }
        first = false;
    }
    assert(s@.take(s@.len() as int) =~= s@);
    result
}

/// Convert a name to PascalCase.
pub fn to_pascal_case(s: &str) -> (result: String)
    ensures
        result@ == pascal_case(s@),
{
    let mut result = String::new();
    let mut capitalize_next = true;
    proof {
        vstd::string::axiom_spec_iter(s);
    }
    for c in it: s.chars()
        invariant
            it.seq() == s@,
            capitalize_next == (it.index() == 0 || s@[it.index() - 1] == '_'),
            result@ == pascal_case(s@.take(it.index())),
    {
        let ghost i = it.index();
        assert(s@.take(i + 1).drop_last() =~= s@.take(i));
        if c == '_' {
            capitalize_next = true;
        } else if capitalize_next {
            let upper = uppercase_first(c);
            string_push(&mut result, upper);
            capitalize_next = false;
        } else {
            string_push(&mut result, c);
        }
    }
    assert(s@.take(s@.len() as int) =~= s@);
    result
}

/// The name of the module that holds a service's request structs, method id
/// constants and dispatch function: `__{snake_case(trait)}_rpc_impl`.
pub fn rpc_module_name(trait_name: &str) -> (name: String)
    ensures
        name@ == "__"@ + snake_case(trait_name@) + "_rpc_impl"@,
{
    let snake = to_snake_case(trait_name);
    let mut name = String::from_str("__");
    name.append(snake.as_str());
    name.append("_rpc_impl");
    name
}

/// The name of the constant that holds a method's id: `{UPPERCASE(method)}_METHOD_ID`.
pub fn method_id_const_name(method_name: &str) -> (name: String)
    ensures
        name@ == uppercase_of(method_name@) + "_METHOD_ID"@,
{
    let mut name = str_to_uppercase(method_name);
    name.append("_METHOD_ID");
    name
}

/// The name of a method's request struct: `{PascalCase(method)}Request`.
pub fn request_struct_name(method_name: &str) -> (name: String)
    ensures
        name@ == pascal_case(method_name@) + "Request"@,
{
    let mut name = to_pascal_case(method_name);
    name.append("Request");
    name
}

/// The id of the method at `index` in the trait's declaration order, cut to
/// the 16 bits of the wire's method id.
pub fn method_id_for_index(index: usize) -> (id: u16)
    ensures
        id == index % 0x1_0000,
{
    (index % 0x1_0000) as u16
}

/// Whether `pattern` occurs in `text` as a run of consecutive chars.
pub open spec fn occurs_in(pattern: Seq<char>, text: Seq<char>) -> bool {
    exists|i: int| 0 <= i && i + pattern.len() <= text.len() && #[trigger] text.subrange(i, i + pattern.len()) == pattern
}

/// The chars of `s`, in order.
fn chars_of(s: &str) -> (v: Vec<char>)
    ensures
        v@ == s@,
{
    let mut v: Vec<char> = Vec::new();
    proof {
        vstd::string::axiom_spec_iter(s);
    }
    for c in it: s.chars()
        invariant
            it.seq() == s@,
            v@ == s@.take(it.index()),
    {
        let ghost i = it.index();
        v.push(c);
        assert(v@ =~= s@.take(i + 1));
    }
    assert(s@.take(s@.len() as int) =~= s@);
    v
}

/// Whether the chars of `pattern` start at position `at` of `text`.
fn occurs_at(pattern: &Vec<char>, text: &Vec<char>, at: usize) -> (b: bool)
    requires
        at + pattern.len() <= text.len(),
    ensures
        b == (text@.subrange(at as int, at + pattern.len()) == pattern@),
{
    let mut k: usize = 0;
    while k < pattern.len()
        invariant
            k <= pattern.len(),
            at + pattern.len() <= text.len(),
            forall|j: int| 0 <= j < k ==> text@[at + j] == pattern@[j],
        decreases pattern.len() - k,
    {
        if text[at + k] != pattern[k] {
            assert(text@.subrange(at as int, at + pattern.len())[k as int] != pattern@[k as int]);
            return false;
        }
        k = k + 1;
    }
    assert(text@.subrange(at as int, at + pattern.len()) =~= pattern@);
    true
}

/// Whether the service attribute's arguments ask for a local service, one
/// whose futures need not be `Send`: they do where their text holds `?Send`.
pub fn allows_non_send(attr_text: &str) -> (local: bool)
    ensures
        local == occurs_in(seq!['?', 'S', 'e', 'n', 'd'], attr_text@),
{
    let text = chars_of(attr_text);
    let pattern: Vec<char> = vec!['?', 'S', 'e', 'n', 'd'];
    assert(pattern@ =~= seq!['?', 'S', 'e', 'n', 'd']);
    if text.len() < pattern.len() {
        assert forall|i: int| 0 <= i && i + pattern@.len() <= text@.len() implies #[trigger] text@.subrange(i, i + pattern@.len()) != pattern@ by {}
        return false;
    }
    let last = text.len() - pattern.len();
    let mut at: usize = 0;
    while at <= last
        invariant
            last == text.len() - pattern.len(),
            pattern.len() <= text.len(),
            pattern@ == seq!['?', 'S', 'e', 'n', 'd'],
            text@ == attr_text@,
            forall|i: int| 0 <= i < at ==> #[trigger] text@.subrange(i, i + pattern@.len()) != pattern@,
        decreases last + 1 - at,
    {
        if occurs_at(&pattern, &text, at) {
            return true;
        }
        at = at + 1;
    }
    false
}

/// The `Some` entries of `s`, in order.
pub open spec fn present<A>(s: Seq<Option<A>>) -> Seq<A>
    decreases s.len(),
{
    if s.len() == 0 {
        Seq::empty()
    } else {
        present(s.drop_last()) + match s.last() {
            Some(a) => seq![a],
            None => Seq::empty(),
        }
    }
}

/// Keeping the named arguments goes entry by entry, in order: nothing comes
/// of no entries, a named argument added at the end is kept at the end, and an
/// unnamed one adds nothing; so the kept arguments of two runs of inputs are
/// those of the first followed by those of the second.
pub proof fn lemma_present_in_order<A>(s: Seq<Option<A>>, t: Seq<Option<A>>, a: A)
    ensures
        present(Seq::<Option<A>>::empty()) == Seq::<A>::empty(),
        present(s.push(Some(a))) == present(s).push(a),
        present(s.push(None)) == present(s),
        present(s + t) == present(s) + present(t),
        present(s).len() <= s.len(),
{
    assert(s.push(Some(a)).drop_last() =~= s);
    assert(s.push(None).drop_last() =~= s);
    assert(present(s.push(None)) =~= present(s));
    lemma_present_concat(s, t);
    lemma_present_len(s);
}

proof fn lemma_present_concat<A>(s: Seq<Option<A>>, t: Seq<Option<A>>)
    ensures
        present(s + t) == present(s) + present(t),
    decreases t.len(),
{
    if t.len() == 0 {
        assert(s + t =~= s);
        assert(present(s) + present(t) =~= present(s));
    } else {
        let t1 = t.drop_last();
        lemma_present_concat(s, t1);
        assert((s + t).drop_last() =~= s + t1);
        assert((s + t).last() == t.last());
        assert(present(s + t) =~= present(s) + present(t));
    }
}

proof fn lemma_present_len<A>(s: Seq<Option<A>>)
    ensures
        present(s).len() <= s.len(),
    decreases s.len(),
{
    if s.len() > 0 {
        lemma_present_len(s.drop_last());
    }
}

/// Every entry that names an argument is kept, at the position given by the
/// named entries before it.
pub proof fn lemma_present_keeps_each<A>(s: Seq<Option<A>>, i: int)
    requires
        0 <= i < s.len(),
        s[i] is Some,
    ensures
        present(s.take(i)).len() < present(s).len(),
        present(s)[present(s.take(i)).len() as int] == s[i]->Some_0,
{
    let a = s[i]->Some_0;
    assert(s =~= s.take(i).push(Some(a)) + s.skip(i + 1));
    lemma_present_concat(s.take(i).push(Some(a)), s.skip(i + 1));
    assert(s.take(i).push(Some(a)).drop_last() =~= s.take(i));
}

/// The arguments that a generated method keeps: of a method's inputs, those
/// that are named (each given as `Some`, the receiver and other patterns as
/// `None`), in declaration order.
pub fn named_args<A>(inputs: Vec<Option<A>>) -> (args: Vec<A>)
    ensures
        args@ == present(inputs@),
{
    let mut args: Vec<A> = Vec::new();
    let ghost all = inputs@;
    for input in it: inputs
        invariant
            it.seq() == all,
            args@ == present(all.take(it.index())),
    {
        let ghost i = it.index();
        assert(all.take(i + 1).drop_last() =~= all.take(i));
        assert(all.take(i + 1).last() == all[i]);
        match input {
            Some(a) => {
                args.push(a);
            },
            None => {},
        }
        assert(args@ =~= present(all.take(i + 1)));
    }
    assert(all.take(all.len() as int) =~= all);
    args
}

} // verus!
