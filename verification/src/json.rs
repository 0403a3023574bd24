//! The wire document model and its rendering.
//!
//! An outbound payload is modelled as a [`WireValue`]: a tree of booleans,
//! integers, strings, arrays and keyed objects.  [`rendered`] states the
//! exact character sequence a document is written as.  Keys are plain
//! identifiers and go out verbatim; string values are escaped.  The
//! executable writers in this module build that text incrementally and are
//! verified against [`rendered`] member by member.

use vstd::prelude::*;

verus! {

use vstd::string::StrSliceExecFns;

/// One node of a wire document.  `Obj` keeps its members in insertion
/// order: the wire format is an ordered key-value document, and reordering
/// would change the bytes sent.
pub enum WireValue {
    Bool(bool),
    Int(int),
    Str(Seq<char>),
    Arr(Seq<WireValue>),
    Obj(Seq<(Seq<char>, WireValue)>),
}

/// The character for one hexadecimal digit (lower case), for escapes of
/// control characters.
pub open spec fn hex_digit(d: int) -> char {
    if d == 0 {
        '0'
    } else if d == 1 {
        '1'
    } else if d == 2 {
        '2'
    } else if d == 3 {
        '3'
    } else if d == 4 {
        '4'
    } else if d == 5 {
        '5'
    } else if d == 6 {
        '6'
    } else if d == 7 {
        '7'
    } else if d == 8 {
        '8'
    } else if d == 9 {
        '9'
    } else if d == 10 {
        'a'
    } else if d == 11 {
        'b'
    } else if d == 12 {
        'c'
    } else if d == 13 {
        'd'
    } else if d == 14 {
        'e'
    } else {
        'f'
    }
}

/// How one character of a string value appears on the wire: quotes and
/// backslashes are escaped, the common control characters get their short
/// escapes, any other control character is written as a `\u00XX` escape,
/// and everything else stands for itself.
pub open spec fn escaped_char(c: char) -> Seq<char> {
    if c == '"' {
        seq!['\\', '"']
    } else if c == '\\' {
        seq!['\\', '\\']
    } else if c == '\n' {
        seq!['\\', 'n']
    } else if c == '\r' {
        seq!['\\', 'r']
    } else if c == '\t' {
        seq!['\\', 't']
    } else if (c as u32) < 32 {
        seq!['\\', 'u', '0', '0', hex_digit((c as u32) as int / 16), hex_digit((c as u32) as int % 16)]
    } else {
        seq![c]
    }
}

/// A whole string value, escaped character by character.
pub open spec fn escaped(s: Seq<char>) -> Seq<char>
    decreases s.len(),
{
    if s.len() == 0 {
        Seq::empty()
    } else {
        escaped_char(s[0]) + escaped(s.subrange(1, s.len() as int))
    }
}

/// A string value as written on the wire: escaped and double-quoted.
pub open spec fn quoted(s: Seq<char>) -> Seq<char> {
    seq!['"'] + escaped(s) + seq!['"']
}

/// The character for one decimal digit.
pub open spec fn digit_char(d: int) -> char {
    if d == 0 {
        '0'
    } else if d == 1 {
        '1'
    } else if d == 2 {
        '2'
    } else if d == 3 {
        '3'
    } else if d == 4 {
        '4'
    } else if d == 5 {
        '5'
    } else if d == 6 {
        '6'
    } else if d == 7 {
        '7'
    } else if d == 8 {
        '8'
    } else {
        '9'
    }
}

/// The decimal digits of a natural number, most significant first.
pub open spec fn dec_digits(n: nat) -> Seq<char>
    decreases n,
    via dec_digits_decreases
{
    if n < 10 {
        seq![digit_char(n as int)]
    } else {
        dec_digits(n / 10) + seq![digit_char((n % 10) as int)]
    }
}

#[via_fn]
proof fn dec_digits_decreases(n: nat) {
    assert(n >= 10 ==> n / 10 < n) by (nonlinear_arith);
}

/// An integer as written on the wire: native decimal notation, with a
/// leading minus sign when negative.
pub open spec fn int_text(n: int) -> Seq<char> {
    if n < 0 {
        seq!['-'] + dec_digits((-n) as nat)
    } else {
        dec_digits(n as nat)
    }
}

/// The exact text of a wire document.
pub open spec fn rendered(v: WireValue) -> Seq<char>
    decreases v,
{
    match v {
        WireValue::Bool(b) => if b {
            seq!['t', 'r', 'u', 'e']
        } else {
            seq!['f', 'a', 'l', 's', 'e']
        },
        WireValue::Int(n) => int_text(n),
        WireValue::Str(s) => quoted(s),
        WireValue::Arr(items) => seq!['['] + rendered_items(items) + seq![']'],
        WireValue::Obj(members) => seq!['{'] + rendered_members(members) + seq!['}'],
    }
}

/// The comma-separated elements of an array.
pub open spec fn rendered_items(items: Seq<WireValue>) -> Seq<char>
    decreases items,
{
    if items.len() == 0 {
        Seq::empty()
    } else if items.len() == 1 {
        rendered(items[0])
    } else {
        rendered(items[0]) + seq![','] + rendered_items(items.subrange(1, items.len() as int))
    }
}

/// One object member: the key, verbatim in quotes, a colon, then the value.
pub open spec fn rendered_member(m: (Seq<char>, WireValue)) -> Seq<char>
    decreases m,
{
    seq!['"'] + m.0 + seq!['"', ':'] + rendered(m.1)
}

/// The comma-separated members of an object.
pub open spec fn rendered_members(ms: Seq<(Seq<char>, WireValue)>) -> Seq<char>
    decreases ms,
{
    if ms.len() == 0 {
        Seq::empty()
    } else if ms.len() == 1 {
        rendered_member(ms[0])
    } else {
        rendered_member(ms[0]) + seq![','] + rendered_members(ms.subrange(1, ms.len() as int))
    }
}

/// The member an optional string field contributes: nothing when the field
/// is unset, one member with the given key otherwise.
pub open spec fn opt_str_member(key: Seq<char>, v: Option<String>) -> Seq<(Seq<char>, WireValue)> {
    match v {
        Option::None => Seq::empty(),
        Option::Some(s) => seq![(key, WireValue::Str(s@))],
    }
}

/// The member an optional boolean field contributes.
pub open spec fn opt_bool_member(key: Seq<char>, v: Option<bool>) -> Seq<(Seq<char>, WireValue)> {
    match v {
        Option::None => Seq::empty(),
        Option::Some(b) => seq![(key, WireValue::Bool(b))],
    }
}

/// The member an optional 64-bit integer field contributes.
pub open spec fn opt_i64_member(key: Seq<char>, v: Option<i64>) -> Seq<(Seq<char>, WireValue)> {
    match v {
        Option::None => Seq::empty(),
        Option::Some(n) => seq![(key, WireValue::Int(n as int))],
    }
}

/// The member an optional 32-bit integer field contributes.
pub open spec fn opt_i32_member(key: Seq<char>, v: Option<i32>) -> Seq<(Seq<char>, WireValue)> {
    match v {
        Option::None => Seq::empty(),
        Option::Some(n) => seq![(key, WireValue::Int(n as int))],
    }
}

/// The member an optional 16-bit size field contributes.
pub open spec fn opt_u16_member(key: Seq<char>, v: Option<u16>) -> Seq<(Seq<char>, WireValue)> {
    match v {
        Option::None => Seq::empty(),
        Option::Some(n) => seq![(key, WireValue::Int(n as int))],
    }
}

/// Whether an object's member list carries the given key.
pub open spec fn has_key(ms: Seq<(Seq<char>, WireValue)>, key: Seq<char>) -> bool {
    exists|i: int| 0 <= i < ms.len() && ms[i].0 == key
}

/// A key is carried by a concatenation exactly when one of the parts
/// carries it.
pub broadcast proof fn lemma_has_key_append(
    ms1: Seq<(Seq<char>, WireValue)>,
    ms2: Seq<(Seq<char>, WireValue)>,
    key: Seq<char>,
)
    ensures
        #[trigger] has_key(ms1 + ms2, key) <==> (has_key(ms1, key) || has_key(ms2, key)),
{
    let ms = ms1 + ms2;
    if has_key(ms1, key) {
        let i = choose|i: int| 0 <= i < ms1.len() && ms1[i].0 == key;
        assert(ms[i].0 == key);
    }
    if has_key(ms2, key) {
        let i = choose|i: int| 0 <= i < ms2.len() && ms2[i].0 == key;
        assert(ms[ms1.len() + i].0 == key);
    }
    if has_key(ms, key) {
        let i = choose|i: int| 0 <= i < ms.len() && ms[i].0 == key;
        if i < ms1.len() {
            assert(ms1[i].0 == key);
        } else {
            assert(ms2[i - ms1.len()].0 == key);
        }
    }
}

/// A member is carried by a concatenation exactly when one of the parts
/// carries it.
pub broadcast proof fn lemma_contains_append(
    ms1: Seq<(Seq<char>, WireValue)>,
    ms2: Seq<(Seq<char>, WireValue)>,
    m: (Seq<char>, WireValue),
)
    ensures
        #[trigger] (ms1 + ms2).contains(m) <==> (ms1.contains(m) || ms2.contains(m)),
{
    let ms = ms1 + ms2;
    if ms1.contains(m) {
        let i = choose|i: int| 0 <= i < ms1.len() && ms1[i] == m;
        assert(ms[i] == m);
    }
    if ms2.contains(m) {
        let i = choose|i: int| 0 <= i < ms2.len() && ms2[i] == m;
        assert(ms[ms1.len() + i] == m);
    }
    if ms.contains(m) {
        let i = choose|i: int| 0 <= i < ms.len() && ms[i] == m;
        if i < ms1.len() {
            assert(ms1[i] == m);
        } else {
            assert(ms2[i - ms1.len()] == m);
        }
    }
}

/// What an optional string field's segment carries: its own key when the
/// field is set, nothing otherwise.
pub broadcast proof fn lemma_opt_str_member_key(key: Seq<char>, v: Option<String>, k2: Seq<char>)
    ensures
        #[trigger] has_key(opt_str_member(key, v), k2) <==> (v is Some && k2 == key),
        v matches Some(s) ==> opt_str_member(key, v).contains((key, WireValue::Str(s@))),
        v matches Some(s) ==> forall|m: (Seq<char>, WireValue)|
            #[trigger] opt_str_member(key, v).contains(m) ==> m == (key, WireValue::Str(s@)),
        v is None ==> forall|m: (Seq<char>, WireValue)| !(#[trigger] opt_str_member(
            key,
            v,
        ).contains(m)),
{
    let c = opt_str_member(key, v);
    if let Some(s) = v {
        assert(c[0] == (key, WireValue::Str(s@)));
        assert(c.contains((key, WireValue::Str(s@))));
        if k2 == key {
            assert(has_key(c, k2));
        }
    }
    if has_key(c, k2) {
        let i = choose|i: int| 0 <= i < c.len() && c[i].0 == k2;
        assert(i == 0);
    }
}

/// What an optional boolean field's segment carries.
pub broadcast proof fn lemma_opt_bool_member_key(key: Seq<char>, v: Option<bool>, k2: Seq<char>)
    ensures
        #[trigger] has_key(opt_bool_member(key, v), k2) <==> (v is Some && k2 == key),
        v matches Some(b) ==> opt_bool_member(key, v).contains((key, WireValue::Bool(b))),
        v matches Some(b) ==> forall|m: (Seq<char>, WireValue)|
            #[trigger] opt_bool_member(key, v).contains(m) ==> m == (key, WireValue::Bool(b)),
        v is None ==> forall|m: (Seq<char>, WireValue)| !(#[trigger] opt_bool_member(
            key,
            v,
        ).contains(m)),
{
    let c = opt_bool_member(key, v);
    if let Some(b) = v {
        assert(c[0] == (key, WireValue::Bool(b)));
        assert(c.contains((key, WireValue::Bool(b))));
        if k2 == key {
            assert(has_key(c, k2));
        }
    }
    if has_key(c, k2) {
        let i = choose|i: int| 0 <= i < c.len() && c[i].0 == k2;
        assert(i == 0);
    }
}

/// What an optional 64-bit integer field's segment carries.
pub broadcast proof fn lemma_opt_i64_member_key(key: Seq<char>, v: Option<i64>, k2: Seq<char>)
    ensures
        #[trigger] has_key(opt_i64_member(key, v), k2) <==> (v is Some && k2 == key),
        v matches Some(n) ==> opt_i64_member(key, v).contains((key, WireValue::Int(n as int))),
{
    let c = opt_i64_member(key, v);
    if let Some(n) = v {
        assert(c[0] == (key, WireValue::Int(n as int)));
        assert(c.contains((key, WireValue::Int(n as int))));
        if k2 == key {
            assert(has_key(c, k2));
        }
    }
    if has_key(c, k2) {
        let i = choose|i: int| 0 <= i < c.len() && c[i].0 == k2;
        assert(i == 0);
    }
}

/// What an optional 32-bit integer field's segment carries.
pub broadcast proof fn lemma_opt_i32_member_key(key: Seq<char>, v: Option<i32>, k2: Seq<char>)
    ensures
        #[trigger] has_key(opt_i32_member(key, v), k2) <==> (v is Some && k2 == key),
        v matches Some(n) ==> opt_i32_member(key, v).contains((key, WireValue::Int(n as int))),
{
    let c = opt_i32_member(key, v);
    if let Some(n) = v {
        assert(c[0] == (key, WireValue::Int(n as int)));
        assert(c.contains((key, WireValue::Int(n as int))));
        if k2 == key {
            assert(has_key(c, k2));
        }
    }
    if has_key(c, k2) {
        let i = choose|i: int| 0 <= i < c.len() && c[i].0 == k2;
        assert(i == 0);
    }
}

/// What an optional 16-bit size field's segment carries.
pub broadcast proof fn lemma_opt_u16_member_key(key: Seq<char>, v: Option<u16>, k2: Seq<char>)
    ensures
        #[trigger] has_key(opt_u16_member(key, v), k2) <==> (v is Some && k2 == key),
        v matches Some(n) ==> opt_u16_member(key, v).contains((key, WireValue::Int(n as int))),
{
    let c = opt_u16_member(key, v);
    if let Some(n) = v {
        assert(c[0] == (key, WireValue::Int(n as int)));
        assert(c.contains((key, WireValue::Int(n as int))));
        if k2 == key {
            assert(has_key(c, k2));
        }
    }
    if has_key(c, k2) {
        let i = choose|i: int| 0 <= i < c.len() && c[i].0 == k2;
        assert(i == 0);
    }
}

/// Appending a member puts it, comma-separated, after the existing ones.
pub proof fn lemma_members_push(ms: Seq<(Seq<char>, WireValue)>, m: (Seq<char>, WireValue))
    ensures
        rendered_members(ms.push(m)) == if ms.len() == 0 {
            rendered_member(m)
        } else {
            rendered_members(ms) + seq![','] + rendered_member(m)
        },
    decreases ms.len(),
{
    if ms.len() == 0 {
        assert(ms.push(m).len() == 1);
        assert(ms.push(m)[0] == m);
    } else if ms.len() == 1 {
        assert(ms.push(m).subrange(1, 2) =~= seq![m]);
        assert(rendered_members(seq![m]) == rendered_member(m));
    } else {
        let tail = ms.subrange(1, ms.len() as int);
        lemma_members_push(tail, m);
        assert(ms.push(m).subrange(1, ms.len() as int + 1) =~= tail.push(m));
        assert(ms.push(m)[0] == ms[0]);
        assert(rendered_members(ms.push(m)) == rendered_member(ms[0]) + seq![','] + rendered_members(tail.push(m)));
        assert(rendered_members(ms) + seq![','] + rendered_member(m) =~= rendered_member(ms[0])
            + seq![','] + (rendered_members(tail) + seq![','] + rendered_member(m)));
    }
}

/// Appending an element puts it, comma-separated, after the existing ones.
pub proof fn lemma_items_push(items: Seq<WireValue>, v: WireValue)
    ensures
        rendered_items(items.push(v)) == if items.len() == 0 {
            rendered(v)
        } else {
            rendered_items(items) + seq![','] + rendered(v)
        },
    decreases items.len(),
{
    if items.len() == 0 {
        assert(items.push(v).len() == 1);
        assert(items.push(v)[0] == v);
    } else if items.len() == 1 {
        assert(items.push(v).subrange(1, 2) =~= seq![v]);
        assert(rendered_items(seq![v]) == rendered(v));
    } else {
        let tail = items.subrange(1, items.len() as int);
        lemma_items_push(tail, v);
        assert(items.push(v).subrange(1, items.len() as int + 1) =~= tail.push(v));
        assert(items.push(v)[0] == items[0]);
        assert(rendered_items(items.push(v)) == rendered(items[0]) + seq![','] + rendered_items(tail.push(v)));
        assert(rendered_items(items) + seq![','] + rendered(v) =~= rendered(items[0]) + seq![',']
            + (rendered_items(tail) + seq![','] + rendered(v)));
    }
}

/// Escaping one more character extends the escaped text.
pub proof fn lemma_escaped_push(s: Seq<char>, c: char)
    ensures
        escaped(s.push(c)) == escaped(s) + escaped_char(c),
    decreases s.len(),
{
    if s.len() == 0 {
        assert(s.push(c)[0] == c);
        assert(s.push(c).subrange(1, 1) =~= Seq::<char>::empty());
        assert(escaped(Seq::<char>::empty()) =~= Seq::<char>::empty());
        assert(escaped(s.push(c)) =~= escaped_char(c));
        assert(escaped(s) + escaped_char(c) =~= escaped_char(c));
    } else {
        let tail = s.subrange(1, s.len() as int);
        lemma_escaped_push(tail, c);
        assert(s.push(c).subrange(1, s.len() as int + 1) =~= tail.push(c));
        assert(s.push(c)[0] == s[0]);
        assert(escaped(s) + escaped_char(c) =~= escaped_char(s[0]) + (escaped(tail)
            + escaped_char(c)));
    }
}

/// A value serializable to the wire format.  `wire_members` is the ordered
/// member list of the object the value stands for; `to_json` produces
/// exactly the rendering of that object.
pub trait Encode: Sized {
    spec fn wire_members(&self) -> Seq<(Seq<char>, WireValue)>;

    fn to_json(&self) -> (s: String)
        ensures
            s@ == rendered(WireValue::Obj(self.wire_members())),
    ;
}

/// Relies on `String`'s `FromIterator<char>` impl: collecting characters
/// yields a string of exactly those characters, in order.
#[verifier::external_body]
fn chars_to_string(buf: &Vec<char>) -> (s: String)
    ensures
        s@ == buf@,
{
    buf.iter().collect()
}

/// Appends every character of `s` to `buf`.
fn push_chars(buf: &mut Vec<char>, s: &str)
    ensures
        final(buf)@ == old(buf)@ + s@,
{
    let ghost orig = buf@;
    let n = s.unicode_len();
    let mut i: usize = 0;
    while i < n
        invariant
            n == s@.len(),
            i <= n,
            buf@ == orig + s@.take(i as int),
        decreases n - i,
    {
        let c = s.get_char(i);
        buf.push(c);
        proof {
            assert(s@.take(i + 1) =~= s@.take(i as int).push(s@[i as int]));
        }
        i = i + 1;
    }
    proof {
        assert(s@.take(n as int) =~= s@);
    }
}

/// Appends a key as it stands in an object member: quoted verbatim and
/// followed by the colon.
fn push_key(buf: &mut Vec<char>, key: &str)
    ensures
        final(buf)@ == old(buf)@ + seq!['"'] + key@ + seq!['"', ':'],
{
    buf.push('"');
    push_chars(buf, key);
    buf.push('"');
    buf.push(':');
    proof {
        assert(final(buf)@ =~= old(buf)@ + seq!['"'] + key@ + seq!['"', ':']);
    }
}

/// The character for one hexadecimal digit.
fn hex_digit_char(d: u32) -> (c: char)
    requires
        d < 16,
    ensures
        c == hex_digit(d as int),
{
    if d == 0 {
        '0'
    } else if d == 1 {
        '1'
    } else if d == 2 {
        '2'
    } else if d == 3 {
        '3'
    } else if d == 4 {
        '4'
    } else if d == 5 {
        '5'
    } else if d == 6 {
        '6'
    } else if d == 7 {
        '7'
    } else if d == 8 {
        '8'
    } else if d == 9 {
        '9'
    } else if d == 10 {
        'a'
    } else if d == 11 {
        'b'
    } else if d == 12 {
        'c'
    } else if d == 13 {
        'd'
    } else if d == 14 {
        'e'
    } else {
        'f'
    }
}

/// Appends one character of a string value in its escaped form.
fn push_escaped_char(buf: &mut Vec<char>, c: char)
    ensures
        final(buf)@ == old(buf)@ + escaped_char(c),
{
    if c == '"' {
        buf.push('\\');
        buf.push('"');
    } else if c == '\\' {
        buf.push('\\');
        buf.push('\\');
    } else if c == '\n' {
        buf.push('\\');
        buf.push('n');
    } else if c == '\r' {
        buf.push('\\');
        buf.push('r');
    } else if c == '\t' {
        buf.push('\\');
        buf.push('t');
    } else {
        let u = c as u32;
        if u < 32 {
            buf.push('\\');
            buf.push('u');
            buf.push('0');
            buf.push('0');
            buf.push(hex_digit_char(u / 16));
            buf.push(hex_digit_char(u % 16));
        } else {
            buf.push(c);
        }
    }
    proof {
        assert(final(buf)@ =~= old(buf)@ + escaped_char(c));
    }
}

/// Appends a string value as it stands on the wire: quoted and escaped.
fn push_quoted(buf: &mut Vec<char>, s: &str)
    ensures
        final(buf)@ == old(buf)@ + quoted(s@),
{
    let ghost orig = buf@;
    buf.push('"');
    let n = s.unicode_len();
    let mut i: usize = 0;
    while i < n
        invariant
            n == s@.len(),
            i <= n,
            buf@ == orig + seq!['"'] + escaped(s@.take(i as int)),
        decreases n - i,
    {
        let c = s.get_char(i);
        push_escaped_char(buf, c);
        proof {
            assert(s@.take(i + 1) =~= s@.take(i as int).push(s@[i as int]));
            lemma_escaped_push(s@.take(i as int), s@[i as int]);
            assert(buf@ =~= orig + seq!['"'] + escaped(s@.take(i + 1)));
        }
        i = i + 1;
    }
    buf.push('"');
    proof {
        assert(s@.take(n as int) =~= s@);
        assert(final(buf)@ =~= orig + quoted(s@));
    }
}

/// Appends the decimal digits of `n`.
fn push_u64(buf: &mut Vec<char>, n: u64)
    ensures
        final(buf)@ == old(buf)@ + dec_digits(n as nat),
    decreases n,
{
    if n >= 10 {
        proof {
            assert(n / 10 < n) by (nonlinear_arith)
                requires
                    n >= 10,
            ;
        }
        push_u64(buf, n / 10);
    }
    let d = n % 10;
    let c = if d == 0 {
        '0'
    } else if d == 1 {
        '1'
    } else if d == 2 {
        '2'
    } else if d == 3 {
        '3'
    } else if d == 4 {
        '4'
    } else if d == 5 {
        '5'
    } else if d == 6 {
        '6'
    } else if d == 7 {
        '7'
    } else if d == 8 {
        '8'
    } else {
        '9'
    };
    buf.push(c);
    proof {
        assert(c == digit_char((n % 10) as int));
        if n < 10 {
            assert(n % 10 == n);
            assert(final(buf)@ =~= old(buf)@ + dec_digits(n as nat));
        } else {
            assert(final(buf)@ =~= old(buf)@ + (dec_digits(n as nat / 10) + seq![digit_char(
                (n % 10) as int,
            )]));
        }
    }
}

/// Appends a signed integer in the wire's native decimal notation.
fn push_i64(buf: &mut Vec<char>, n: i64)
    ensures
        final(buf)@ == old(buf)@ + int_text(n as int),
{
    if n < 0 {
        buf.push('-');
        let abs: u64 = if n == i64::MIN {
            9223372036854775808u64
        } else {
            (-n) as u64
        };
        assert(abs as nat == (-(n as int)) as nat);
        push_u64(buf, abs);
        proof {
            assert(final(buf)@ =~= old(buf)@ + int_text(n as int));
        }
    } else {
        push_u64(buf, n as u64);
    }
}

/// An object under construction: the text written so far, together with the
/// ghost member list it renders.  A comma is owed before every member but
/// the first, which `first` tracks.
pub struct ObjectWriter {
    buf: Vec<char>,
    first: bool,
    members: Ghost<Seq<(Seq<char>, WireValue)>>,
}

/// An array under construction, the same way.
pub struct ArrayWriter {
    buf: Vec<char>,
    first: bool,
    items: Ghost<Seq<WireValue>>,
}

impl ObjectWriter {
    /// The text written so far is exactly the open brace and the members
    /// recorded in the ghost list.
    pub closed spec fn wf(self) -> bool {
        &&& self.buf@ == seq!['{'] + rendered_members(self.members@)
        &&& (self.first <==> self.members@.len() == 0)
    }

    /// The members written so far.
    pub closed spec fn members(self) -> Seq<(Seq<char>, WireValue)> {
        self.members@
    }

    pub fn begin() -> (w: ObjectWriter)
        ensures
            w.wf(),
            w.members() == Seq::<(Seq<char>, WireValue)>::empty(),
    {
        let mut buf: Vec<char> = Vec::new();
        buf.push('{');
        let w = ObjectWriter { buf, first: true, members: Ghost(Seq::empty()) };
        proof {
            assert(w.buf@ =~= seq!['{'] + rendered_members(w.members@));
        }
        w
    }

    /// Writes the comma owed before the next member.
    fn sep(&mut self)
        requires
            old(self).wf(),
        ensures
            final(self).buf@ == old(self).buf@ + if old(self).members@.len() == 0 {
                Seq::<char>::empty()
            } else {
                seq![',']
            },
            final(self).first == false,
            final(self).members@ == old(self).members@,
    {
        if self.first {
            self.first = false;
            proof {
                assert(final(self).buf@ =~= old(self).buf@ + Seq::<char>::empty());
            }
        } else {
            self.buf.push(',');
        }
    }

    /// Writes one member holding a string value.
    pub fn field_str(&mut self, key: &str, val: &str)
        requires
            old(self).wf(),
        ensures
            final(self).wf(),
            final(self).members() == old(self).members().push(
                (key@, WireValue::Str(val@)),
            ),
    {
        self.sep();
        push_key(&mut self.buf, key);
        push_quoted(&mut self.buf, val);
        proof {
            lemma_members_push(self.members@, (key@, WireValue::Str(val@)));
        }
        self.members = Ghost(self.members@.push((key@, WireValue::Str(val@))));
        proof {
            assert(self.buf@ =~= seq!['{'] + rendered_members(self.members@));
        }
    }

    /// Writes one member holding an integer value.
    pub fn field_i64(&mut self, key: &str, val: i64)
        requires
            old(self).wf(),
        ensures
            final(self).wf(),
            final(self).members() == old(self).members().push(
                (key@, WireValue::Int(val as int)),
            ),
    {
        self.sep();
        push_key(&mut self.buf, key);
        push_i64(&mut self.buf, val);
        proof {
            lemma_members_push(self.members@, (key@, WireValue::Int(val as int)));
        }
        self.members = Ghost(self.members@.push((key@, WireValue::Int(val as int))));
        proof {
            assert(self.buf@ =~= seq!['{'] + rendered_members(self.members@));
        }
    }

    /// Writes one member holding a boolean value.
    pub fn field_bool(&mut self, key: &str, val: bool)
        requires
            old(self).wf(),
        ensures
            final(self).wf(),
            final(self).members() == old(self).members().push(
                (key@, WireValue::Bool(val)),
            ),
    {
        self.sep();
        push_key(&mut self.buf, key);
        if val {
            self.buf.push('t');
            self.buf.push('r');
            self.buf.push('u');
            self.buf.push('e');
        } else {
            self.buf.push('f');
            self.buf.push('a');
            self.buf.push('l');
            self.buf.push('s');
            self.buf.push('e');
        }
        proof {
            lemma_members_push(self.members@, (key@, WireValue::Bool(val)));
        }
        self.members = Ghost(self.members@.push((key@, WireValue::Bool(val))));
        proof {
            assert(self.buf@ =~= seq!['{'] + rendered_members(self.members@));
        }
    }

    /// Writes one member whose value is an already rendered document
    /// (a nested object or array).
    pub fn field_sub(&mut self, key: &str, sub: &str, Ghost(v): Ghost<WireValue>)
        requires
            old(self).wf(),
            sub@ == rendered(v),
        ensures
            final(self).wf(),
            final(self).members() == old(self).members().push((key@, v)),
    {
        self.sep();
        push_key(&mut self.buf, key);
        push_chars(&mut self.buf, sub);
        proof {
            lemma_members_push(self.members@, (key@, v));
        }
        self.members = Ghost(self.members@.push((key@, v)));
        proof {
            assert(self.buf@ =~= seq!['{'] + rendered_members(self.members@));
        }
    }

    /// Closes the object and hands the finished text out.
    pub fn finish(self) -> (s: String)
        requires
            self.wf(),
        ensures
            s@ == rendered(WireValue::Obj(self.members())),
    {
        let ObjectWriter { mut buf, first: _, members } = self;
        buf.push('}');
        let s = chars_to_string(&buf);
        proof {
            assert(s@ =~= rendered(WireValue::Obj(members@)));
        }
        s
    }
}

impl ArrayWriter {
    /// The text written so far is exactly the open bracket and the items
    /// recorded in the ghost list.
    pub closed spec fn wf(self) -> bool {
        &&& self.buf@ == seq!['['] + rendered_items(self.items@)
        &&& (self.first <==> self.items@.len() == 0)
    }

    /// The items written so far.
    pub closed spec fn items(self) -> Seq<WireValue> {
        self.items@
    }

    pub fn begin() -> (w: ArrayWriter)
        ensures
            w.wf(),
            w.items() == Seq::<WireValue>::empty(),
    {
        let mut buf: Vec<char> = Vec::new();
        buf.push('[');
        let w = ArrayWriter { buf, first: true, items: Ghost(Seq::empty()) };
        proof {
            assert(w.buf@ =~= seq!['['] + rendered_items(w.items@));
        }
        w
    }

    /// Writes one element from its already rendered text.
    pub fn item(&mut self, sub: &str, Ghost(v): Ghost<WireValue>)
        requires
            old(self).wf(),
            sub@ == rendered(v),
        ensures
            final(self).wf(),
            final(self).items() == old(self).items().push(v),
    {
        if self.first {
            self.first = false;
        } else {
            self.buf.push(',');
        }
        push_chars(&mut self.buf, sub);
        proof {
            lemma_items_push(self.items@, v);
        }
        self.items = Ghost(self.items@.push(v));
        proof {
            assert(self.buf@ =~= seq!['['] + rendered_items(self.items@));
        }
    }

    /// Closes the array; the result is the rendering of `Arr` over the
    /// items written.
    pub fn finish(self) -> (s: String)
        requires
            self.wf(),
        ensures
            s@ == rendered(WireValue::Arr(self.items())),
    {
        let ArrayWriter { mut buf, first: _, items } = self;
        buf.push(']');
        let s = chars_to_string(&buf);
        proof {
            assert(s@ =~= rendered(WireValue::Arr(items@)));
        }
        s
    }
}

} // verus!
