//! The address of a tile as text: a template filled in with a tile's
//! coordinates, and the coordinates and the source name read back from it.
//!
//! A tile address ends in `/{z}/{x}/{y}/<name>?<query>`.

use crate::vector_tile_id::VectorTileID;
use crate::views::lemma_views_empty;
use crate::views::lemma_views_push;
use crate::views::views;
use vstd::prelude::*;

verus! {

/// The character of the decimal digit `d`.
pub open spec fn digit_char(d: nat) -> char {
    ((48 + d) as u8) as char
}

/// Whether `c` is a decimal digit.
pub open spec fn is_digit(c: char) -> bool {
    '0' <= c <= '9'
}

/// The decimal digit that `c` is.
pub open spec fn digit_value(c: char) -> nat {
    (c as u32 - 48) as nat
}

/// `n` written in decimal, without a sign and without leading zeros.
pub open spec fn decimal(n: nat) -> Seq<char>
    decreases n,
{
    if n < 10 {
        seq![digit_char(n)]
    } else {
        decimal(n / 10).push(digit_char(n % 10))
    }
}

/// The placeholder of a coordinate named `axis`: the name in braces.
pub open spec fn placeholder(axis: char) -> Seq<char> {
    seq!['{', axis, '}']
}

/// Whether `s` begins with `prefix`.
pub open spec fn starts_with(s: Seq<char>, prefix: Seq<char>) -> bool {
    prefix.len() <= s.len() && s.take(prefix.len() as int) == prefix
}

/// What the head of the template `t` becomes, and how many characters of `t`
/// that head takes: a placeholder becomes its coordinate of `id` in decimal,
/// any other character stays.
pub open spec fn substitute_head(t: Seq<char>, id: VectorTileID) -> (Seq<char>, int) {
    if starts_with(t, placeholder('x')) {
        (decimal(id.x as nat), 3)
    } else if starts_with(t, placeholder('y')) {
        (decimal(id.y as nat), 3)
    } else if starts_with(t, placeholder('z')) {
        (decimal(id.z as nat), 3)
    } else {
        (seq![t[0]], 1)
    }
}

/// The template `t` with each `{x}`, `{y}` and `{z}` given way to the decimal
/// form of that coordinate of `id`; every other character stays.
pub open spec fn substitute(t: Seq<char>, id: VectorTileID) -> Seq<char>
    decreases t.len(),
{
    if t.len() == 0 {
        Seq::empty()
    } else {
        let (head, taken) = substitute_head(t, id);
        head + substitute(t.skip(taken), id)
    }
}

/// The pieces of `s` between its `/` characters, in order. A text without a
/// `/` is one piece; a `/` at either end bounds an empty piece.
pub open spec fn segments(s: Seq<char>) -> Seq<Seq<char>>
    decreases s.len(),
{
    if s.len() == 0 {
        seq![Seq::empty()]
    } else {
        let before = segments(s.drop_last());
        if s.last() == '/' {
            before.push(Seq::empty())
        } else {
            before.update(before.len() - 1, before.last().push(s.last()))
        }
    }
}

/// The number that the digits `d` spell.
pub open spec fn digits_value(d: Seq<char>) -> nat
    decreases d.len(),
{
    if d.len() == 0 {
        0
    } else {
        10 * digits_value(d.drop_last()) + digit_value(d.last())
    }
}

/// Whether every character of `d` is a decimal digit.
pub open spec fn all_digits(d: Seq<char>) -> bool {
    forall|i: int| 0 <= i < d.len() ==> is_digit(#[trigger] d[i])
}

/// The digits of a coordinate: the text without a `+` in front.
pub open spec fn unsigned_part(s: Seq<char>) -> Seq<char> {
    if s.len() > 0 && s[0] == '+' {
        s.skip(1)
    } else {
        s
    }
}

/// The coordinate that `s` spells: decimal digits, at least one, with or
/// without a `+` in front, and a value that 32 bits hold.
pub open spec fn spec_parse_u32(s: Seq<char>) -> Option<u32> {
    let d = unsigned_part(s);
    if d.len() > 0 && all_digits(d) && digits_value(d) <= u32::MAX {
        Some(digits_value(d) as u32)
    } else {
        None
    }
}

/// The tile that the address `url` names: with the pieces of `url` counted
/// from the end, the second is `y`, the third `x` and the fourth `z`. `None`
/// where there are fewer than four pieces or one of the three spells no
/// coordinate.
pub open spec fn spec_tile_id_from_url(url: Seq<char>) -> Option<VectorTileID> {
    let segs = segments(url);
    let n = segs.len() as int;
    if n < 4 {
        None
    } else {
        match (
            spec_parse_u32(segs[n - 3]),
            spec_parse_u32(segs[n - 2]),
            spec_parse_u32(segs[n - 4]),
        ) {
            (Some(x), Some(y), Some(z)) => Some(VectorTileID { x, y, z }),
            _ => None,
        }
    }
}

/// The part of `s` before its first `?`, or all of `s` where it has none.
pub open spec fn before_query(s: Seq<char>) -> Seq<char>
    decreases s.len(),
{
    if s.len() == 0 || s[0] == '?' {
        Seq::empty()
    } else {
        seq![s[0]] + before_query(s.skip(1))
    }
}

/// The name of the tile source in the address `url`: the last piece of `url`
/// up to its query.
pub open spec fn spec_name_from_url(url: Seq<char>) -> Seq<char> {
    before_query(segments(url).last())
}

/// `String::push` of the standard library: adds one character at the end.
#[verifier::external_body]
fn push_char(s: &mut String, c: char)
    ensures
        final(s)@ == old(s)@.push(c),
{
    s.push(c)
}

/// The characters of `s`.
pub(crate) fn chars_of(s: &str) -> (v: Vec<char>)
    ensures
        v@ == s@,
{
    let mut v: Vec<char> = Vec::new();
    for c in it: s.chars()
        invariant
            v@ == it.seq().take(it.index() as int),
            it.seq() == s@,
    {
        v.push(c);
    }
    v
}

/// The text that `chars` spell.
pub(crate) fn string_of(chars: &Vec<char>) -> (s: String)
    ensures
        s@ == chars@,
{
    let mut s = String::new();
    let mut i: usize = 0;
    while i < chars.len()
        invariant
            i <= chars.len(),
            s@ == chars@.take(i as int),
        decreases chars.len() - i,
    {
        push_char(&mut s, chars[i]);
        i = i + 1;
        assert(s@ =~= chars@.take(i as int));
    }
    assert(chars@.take(chars.len() as int) =~= chars@);
    s
}

/// Adds the decimal form of `n` to `out`.
fn push_decimal(out: &mut Vec<char>, n: u32)
    ensures
        final(out)@ == old(out)@ + decimal(n as nat),
    decreases n,
{
    if n >= 10 {
        push_decimal(out, n / 10);
    }
    out.push(((48 + n % 10) as u8) as char);
    assert(out@ =~= old(out)@ + decimal(n as nat));
}

/// Whether the three characters of `t` from index `i` on are the placeholder
/// of `axis`.
fn placeholder_at(t: &Vec<char>, i: usize, axis: char) -> (b: bool)
    requires
        i < t.len(),
    ensures
        b == starts_with(t@.skip(i as int), placeholder(axis)),
{
    let ghost rest = t@.skip(i as int);
    if t.len() - i < 3 {
        return false;
    }
    let b = t[i] == '{' && t[i + 1] == axis && t[i + 2] == '}';
    proof {
        let head = rest.take(3);
        assert(head[0] == t[i as int] && head[1] == t[i + 1] && head[2] == t[i + 2]);
        if b {
            assert(head =~= placeholder(axis));
        } else {
            assert(placeholder(axis)[0] == '{' && placeholder(axis)[1] == axis && placeholder(
                axis,
            )[2] == '}');
        }
    }
    b
}

/// Adds to `out` what the head of the template at index `i` becomes, and
/// says how many characters that head takes.
fn push_head(out: &mut Vec<char>, t: &Vec<char>, i: usize, tile_id: &VectorTileID) -> (taken: usize)
    requires
        i < t.len(),
    ensures
        final(out)@ == old(out)@ + substitute_head(t@.skip(i as int), *tile_id).0,
        taken == substitute_head(t@.skip(i as int), *tile_id).1,
        1 <= taken <= t.len() - i,
{
    if placeholder_at(t, i, 'x') {
        push_decimal(out, tile_id.x);
        3
    } else if placeholder_at(t, i, 'y') {
        push_decimal(out, tile_id.y);
        3
    } else if placeholder_at(t, i, 'z') {
        push_decimal(out, tile_id.z);
        3
    } else {
        out.push(t[i]);
        assert(out@ =~= old(out)@ + seq![t@.skip(i as int)[0]]);
        1
    }
}

/// Fills in a tile address: every `{x}`, `{y}` and `{z}` of `url_template`
/// gives way to that coordinate of `tile_id` in decimal.
pub fn get_tile_request_url(tile_id: &VectorTileID, url_template: &str) -> (url: String)
    ensures
        url@ == substitute(url_template@, *tile_id),
{
    let t = chars_of(url_template);
    let mut out: Vec<char> = Vec::new();
    let mut i: usize = 0;
    assert(t@.skip(0) =~= t@);
    assert(out@ + substitute(t@, *tile_id) =~= substitute(t@, *tile_id));
    while i < t.len()
        invariant
            i <= t.len(),
            t@ == url_template@,
            substitute(t@, *tile_id) == out@ + substitute(t@.skip(i as int), *tile_id),
        decreases t.len() - i,
    {
        let ghost rest = t@.skip(i as int);
        let ghost before = out@;
        let taken = push_head(&mut out, &t, i, tile_id);
        i = i + taken;
        proof {
            let head = substitute_head(rest, *tile_id).0;
            let tail = substitute(t@.skip(i as int), *tile_id);
            assert(rest.skip(taken as int) =~= t@.skip(i as int));
            assert(substitute(rest, *tile_id) == head + tail);
            assert(before + (head + tail) =~= (before + head) + tail);
        }
    }
    assert(t@.skip(t.len() as int) =~= Seq::<char>::empty());
    assert(out@ + Seq::<char>::empty() =~= out@);
    string_of(&out)
}

} // verus!

verus! {

/// Cuts `url` at its `/` characters.
fn split_segments(url: &Vec<char>) -> (segs: Vec<Vec<char>>)
    ensures
        views(segs@) == segments(url@),
        segs@.len() >= 1,
{
    let mut done: Vec<Vec<char>> = Vec::new();
    let mut current: Vec<char> = Vec::new();
    let mut i: usize = 0;
    proof {
        lemma_views_empty::<Vec<char>>();
        assert(url@.take(0) =~= Seq::<char>::empty());
        assert(views(done@).push(current@) =~= segments(url@.take(0)));
    }
    while i < url.len()
        invariant
            i <= url.len(),
            views(done@).push(current@) == segments(url@.take(i as int)),
        decreases url.len() - i,
    {
        let c = url[i];
        let ghost before = segments(url@.take(i as int));
        let ghost upto = url@.take(i + 1);
        proof {
            assert(upto.drop_last() =~= url@.take(i as int));
            assert(upto.last() == c);
            assert(before.last() == current@);
        }
        if c == '/' {
            proof {
                lemma_views_push(done@, current);
            }
            done.push(current);
            current = Vec::new();
        } else {
            current.push(c);
            assert(views(done@).push(current@) =~= before.update(
                before.len() - 1,
                before.last().push(c),
            ));
        }
        i = i + 1;
    }
    proof {
        assert(url@.take(url.len() as int) =~= url@);
        lemma_views_push(done@, current);
    }
    done.push(current);
    done
}

/// The number spelled by the first digits of `d` is no more than the number
/// that all of them spell.
proof fn lemma_digits_value_grows(d: Seq<char>, k: int)
    requires
        0 <= k <= d.len(),
    ensures
        digits_value(d.take(k)) <= digits_value(d),
    decreases d.len(),
{
    if k < d.len() {
        lemma_digits_value_grows(d.drop_last(), k);
        assert(d.drop_last().take(k) =~= d.take(k));
    } else {
        assert(d.take(k) =~= d);
    }
}

/// Reads a coordinate in decimal.
fn parse_u32(s: &Vec<char>) -> (r: Option<u32>)
    ensures
        r == spec_parse_u32(s@),
{
    let start: usize = if s.len() > 0 && s[0] == '+' {
        1
    } else {
        0
    };
    let ghost d = unsigned_part(s@);
    assert(d =~= s@.skip(start as int));
    if start == s.len() {
        return None;
    }
    let mut acc: u64 = 0;
    let mut i: usize = start;
    assert(d.take(0) =~= Seq::<char>::empty());
    while i < s.len()
        invariant
            start <= i <= s.len(),
            d == s@.skip(start as int),
            d == unsigned_part(s@),
            all_digits(d.take(i - start)),
            acc == digits_value(d.take(i - start)),
            acc <= u32::MAX,
        decreases s.len() - i,
    {
        let c = s[i];
        let ghost upto = d.take(i - start + 1);
        proof {
            assert(upto.drop_last() =~= d.take(i - start));
            assert(upto.last() == c);
            assert(d[i - start] == c);
        }
        if !('0' <= c && c <= '9') {
            assert(!is_digit(d[i - start]));
            return None;
        }
        acc = acc * 10 + (c as u32 - 48) as u64;
        assert(acc == digits_value(upto));
        if acc > 0xffff_ffff {
            proof {
                lemma_digits_value_grows(d, i - start + 1);
            }
            return None;
        }
        assert forall|j: int| 0 <= j < upto.len() implies is_digit(#[trigger] upto[j]) by {
            if j < i - start {
                assert(upto[j] == d.take(i - start)[j]);
            }
        }
        i = i + 1;
    }
    assert(d.take(s.len() - start) =~= d);
    Some(acc as u32)
}

/// Reads the tile out of a tile address: of the pieces between the `/` of
/// `url`, counted from the end, the fourth is `z`, the third `x` and the
/// second `y`.
pub fn get_tile_id_from_url(url: &str) -> (r: Option<VectorTileID>)
    ensures
        r == spec_tile_id_from_url(url@),
{
    let chars = chars_of(url);
    let segs = split_segments(&chars);
    let n = segs.len();
    if n < 4 {
        return None;
    }
    let x = parse_u32(&segs[n - 3]);
    let y = parse_u32(&segs[n - 2]);
    let z = parse_u32(&segs[n - 4]);
    match (x, y, z) {
        (Some(x), Some(y), Some(z)) => Some(VectorTileID { x, y, z }),
        _ => None,
    }
}

/// Copies the characters of `s` before its first `?`.
fn take_before_query(s: &Vec<char>) -> (out: Vec<char>)
    ensures
        out@ == before_query(s@),
{
    let mut out: Vec<char> = Vec::new();
    let mut i: usize = 0;
    assert(s@.skip(0) =~= s@);
    assert(out@ + before_query(s@) =~= before_query(s@));
    while i < s.len() && s[i] != '?'
        invariant
            i <= s.len(),
            before_query(s@) == out@ + before_query(s@.skip(i as int)),
        decreases s.len() - i,
    {
        let ghost rest = s@.skip(i as int);
        let ghost before = out@;
        out.push(s[i]);
        i = i + 1;
        proof {
            assert(rest.skip(1) =~= s@.skip(i as int));
            let tail = before_query(s@.skip(i as int));
            assert(out@ =~= before + seq![rest[0]]);
            assert(before + (seq![rest[0]] + tail) =~= (before + seq![rest[0]]) + tail);
        }
    }
    assert(before_query(s@.skip(i as int)) =~= Seq::<char>::empty());
    assert(out@ + Seq::<char>::empty() =~= out@);
    out
}

/// Reads the name of the tile source out of a tile address: the last of the
/// pieces between the `/` of `url`, up to its `?`.
pub fn get_vector_tile_name_from_url(url: &str) -> (name: String)
    ensures
        name@ == spec_name_from_url(url@),
{
    let chars = chars_of(url);
    let segs = split_segments(&chars);
    let last = take_before_query(&segs[segs.len() - 1]);
    string_of(&last)
}

} // verus!
