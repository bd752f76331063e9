//! Tile addresses of the usual shape, and the proof that such an address
//! names the tile it was made for.

use crate::tile_url::all_digits;
use crate::tile_url::before_query;
use crate::tile_url::decimal;
use crate::tile_url::digit_char;
use crate::tile_url::digits_value;
use crate::tile_url::is_digit;
use crate::tile_url::placeholder;
use crate::tile_url::segments;
use crate::tile_url::starts_with;
use crate::tile_url::substitute;
use crate::tile_url::spec_name_from_url;
use crate::tile_url::spec_parse_u32;
use crate::tile_url::spec_tile_id_from_url;
use crate::tile_url::unsigned_part;
use crate::vector_tile_id::VectorTileID;
use vstd::prelude::*;

verus! {

/// `base` with one more piece after a `/`.
pub open spec fn with_piece(base: Seq<char>, piece: Seq<char>) -> Seq<char> {
    base + seq!['/'] + piece
}

/// The address of the tile `id` of the source `name`: after `prefix` the zoom
/// level, `x` and `y` in decimal and the name, each after a `/`, and the
/// query after a `?`.
pub open spec fn tile_address(
    prefix: Seq<char>,
    id: VectorTileID,
    name: Seq<char>,
    query: Seq<char>,
) -> Seq<char> {
    with_piece(
        with_piece(
            with_piece(with_piece(prefix, decimal(id.z as nat)), decimal(id.x as nat)),
            decimal(id.y as nat),
        ),
        name + seq!['?'] + query,
    )
}

/// A piece without a `/`, put after a `/`, is one more piece.
pub proof fn lemma_segments_with_piece(base: Seq<char>, piece: Seq<char>)
    requires
        !piece.contains('/'),
    ensures
        segments(with_piece(base, piece)) == segments(base).push(piece),
    decreases piece.len(),
{
    let whole = with_piece(base, piece);
    if piece.len() == 0 {
        assert(whole.drop_last() =~= base);
        assert(piece =~= Seq::<char>::empty());
    } else {
        let shorter = piece.drop_last();
        assert(piece.last() == piece[piece.len() - 1]);
        assert(piece.contains(piece.last()));
        assert(!shorter.contains('/')) by {
            if shorter.contains('/') {
                let i = choose|i: int| 0 <= i < shorter.len() && shorter[i] == '/';
                assert(piece[i] == '/');
            }
        }
        lemma_segments_with_piece(base, shorter);
        assert(whole.drop_last() =~= with_piece(base, shorter));
        assert(whole.last() == piece.last());
        assert(segments(base).push(shorter).update(
            segments(base).len() as int,
            shorter.push(piece.last()),
        ) =~= segments(base).push(piece)) by {
            assert(shorter.push(piece.last()) =~= piece);
        }
    }
}

/// A number in decimal is made of digits, at least one, and spells itself.
pub proof fn lemma_decimal_is_digits(n: nat)
    ensures
        decimal(n).len() >= 1,
        all_digits(decimal(n)),
        digits_value(decimal(n)) == n,
        !decimal(n).contains('/'),
    decreases n,
{
    let d = decimal(n);
    reveal_with_fuel(digits_value, 2);
    assert(digits_value(d) == 10 * digits_value(d.drop_last()) + (d.last() as u32 - 48));
    if n >= 10 {
        lemma_decimal_is_digits(n / 10);
        let front = decimal(n / 10);
        assert(d.drop_last() =~= front);
        assert(d.last() == digit_char(n % 10));
        assert(d.last() as u32 == 48 + n % 10);
        assert forall|i: int| 0 <= i < d.len() implies is_digit(#[trigger] d[i]) by {
            if i < front.len() {
                assert(d[i] == front[i]);
            }
        }
    } else {
        assert(d.drop_last() =~= Seq::<char>::empty());
        assert(d.last() == digit_char(n));
        assert(d.last() as u32 == 48 + n);
    }
    assert(!d.contains('/')) by {
        if d.contains('/') {
            let i = choose|i: int| 0 <= i < d.len() && d[i] == '/';
            assert(is_digit(d[i]));
        }
    }
}

/// A coordinate written in decimal reads back as itself.
pub proof fn lemma_parse_decimal(v: u32)
    ensures
        spec_parse_u32(decimal(v as nat)) == Some(v),
{
    lemma_decimal_is_digits(v as nat);
    let d = decimal(v as nat);
    assert(is_digit(d[0]));
    assert(unsigned_part(d) == d);
}

/// A name without a `?` is what stands before the query.
pub proof fn lemma_before_query(name: Seq<char>, query: Seq<char>)
    requires
        !name.contains('?'),
    ensures
        before_query(name + seq!['?'] + query) == name,
    decreases name.len(),
{
    let whole = name + seq!['?'] + query;
    if name.len() == 0 {
        assert(whole[0] == '?');
        assert(name =~= Seq::<char>::empty());
    } else {
        let rest = name.skip(1);
        assert(name.contains(name[0]));
        assert(whole[0] == name[0]);
        assert(!rest.contains('?')) by {
            if rest.contains('?') {
                let i = choose|i: int| 0 <= i < rest.len() && rest[i] == '?';
                assert(name[i + 1] == '?');
            }
        }
        lemma_before_query(rest, query);
        assert(whole.skip(1) =~= rest + seq!['?'] + query);
        assert(seq![name[0]] + rest =~= name);
    }
}

/// An address made for a tile names that tile and its source: whatever the
/// prefix, the coordinates read back from `tile_address` are those of `id`,
/// and the name read back is `name`, as long as neither name nor query holds
/// a `/` and the name holds no `?`.
pub proof fn lemma_address_names_its_tile(
    prefix: Seq<char>,
    id: VectorTileID,
    name: Seq<char>,
    query: Seq<char>,
)
    requires
        !name.contains('/'),
        !name.contains('?'),
        !query.contains('/'),
    ensures
        spec_tile_id_from_url(tile_address(prefix, id, name, query)) == Some(id),
        spec_name_from_url(tile_address(prefix, id, name, query)) == name,
{
    let z = decimal(id.z as nat);
    let x = decimal(id.x as nat);
    let y = decimal(id.y as nat);
    let last = name + seq!['?'] + query;
    lemma_decimal_is_digits(id.z as nat);
    lemma_decimal_is_digits(id.x as nat);
    lemma_decimal_is_digits(id.y as nat);
    assert(!last.contains('/')) by {
        if last.contains('/') {
            let i = choose|i: int| 0 <= i < last.len() && last[i] == '/';
            if i < name.len() {
                assert(name[i] == '/');
            } else if i > name.len() {
                assert(query[i - name.len() - 1] == '/');
            }
        }
    }
    let a1 = with_piece(prefix, z);
    let a2 = with_piece(a1, x);
    let a3 = with_piece(a2, y);
    lemma_segments_with_piece(prefix, z);
    lemma_segments_with_piece(a1, x);
    lemma_segments_with_piece(a2, y);
    lemma_segments_with_piece(a3, last);
    lemma_segments_nonempty(prefix);
    lemma_parse_decimal(id.z);
    lemma_parse_decimal(id.x);
    lemma_parse_decimal(id.y);
    lemma_before_query(name, query);
}

/// Every text has at least one piece.
pub proof fn lemma_segments_nonempty(s: Seq<char>)
    ensures
        segments(s).len() >= 1,
    decreases s.len(),
{
    if s.len() > 0 {
        lemma_segments_nonempty(s.drop_last());
    }
}

/// The template of the addresses of the source `name`: after `prefix` the
/// placeholders of the zoom level, of `x` and of `y` and the name, each after
/// a `/`, and the query after a `?`.
pub open spec fn tile_template(prefix: Seq<char>, name: Seq<char>, query: Seq<char>) -> Seq<char> {
    with_piece(
        with_piece(
            with_piece(with_piece(prefix, placeholder('z')), placeholder('x')),
            placeholder('y'),
        ),
        name + seq!['?'] + query,
    )
}

/// Text without a `{` stays as it is when a template is filled in.
pub proof fn lemma_substitute_plain(plain: Seq<char>, rest: Seq<char>, id: VectorTileID)
    requires
        !plain.contains('{'),
    ensures
        substitute(plain + rest, id) == plain + substitute(rest, id),
    decreases plain.len(),
{
    let whole = plain + rest;
    if plain.len() == 0 {
        assert(whole =~= rest);
        assert(plain + substitute(rest, id) =~= substitute(rest, id));
    } else {
        let tail = plain.skip(1);
        assert(plain.contains(plain[0]));
        assert(whole[0] == plain[0]);
        assert(!tail.contains('{')) by {
            if tail.contains('{') {
                let i = choose|i: int| 0 <= i < tail.len() && tail[i] == '{';
                assert(plain[i + 1] == '{');
            }
        }
        assert forall|axis: char| !starts_with(whole, #[trigger] placeholder(axis)) by {
            if starts_with(whole, placeholder(axis)) {
                assert(whole.take(3)[0] == placeholder(axis)[0]);
            }
        }
        lemma_substitute_plain(tail, rest, id);
        assert(whole.skip(1) =~= tail + rest);
        assert(seq![plain[0]] + (tail + substitute(rest, id)) =~= plain + substitute(rest, id));
    }
}

/// A placeholder gives way to its coordinate when a template is filled in.
pub proof fn lemma_substitute_placeholder(rest: Seq<char>, id: VectorTileID)
    ensures
        substitute(placeholder('x') + rest, id) == decimal(id.x as nat) + substitute(rest, id),
        substitute(placeholder('y') + rest, id) == decimal(id.y as nat) + substitute(rest, id),
        substitute(placeholder('z') + rest, id) == decimal(id.z as nat) + substitute(rest, id),
{
    let px = placeholder('x') + rest;
    let py = placeholder('y') + rest;
    let pz = placeholder('z') + rest;
    assert(px.take(3) =~= placeholder('x'));
    assert(py.take(3) =~= placeholder('y'));
    assert(pz.take(3) =~= placeholder('z'));
    assert(placeholder('y')[1] != placeholder('x')[1]);
    assert(placeholder('z')[1] != placeholder('x')[1]);
    assert(placeholder('z')[1] != placeholder('y')[1]);
    assert(px.skip(3) =~= rest);
    assert(py.skip(3) =~= rest);
    assert(pz.skip(3) =~= rest);
}

/// Filling in the template of a source gives the address of the tile: so
/// every address made from such a template names the tile it was made for,
/// and fetched bytes find their way back to it.
pub proof fn lemma_template_gives_address(
    prefix: Seq<char>,
    name: Seq<char>,
    query: Seq<char>,
    id: VectorTileID,
)
    requires
        !prefix.contains('{'),
        !name.contains('{'),
        !query.contains('{'),
    ensures
        substitute(tile_template(prefix, name, query), id) == tile_address(
            prefix,
            id,
            name,
            query,
        ),
{
    let slash = seq!['/'];
    let last = name + seq!['?'] + query;
    let z = decimal(id.z as nat);
    let x = decimal(id.x as nat);
    let y = decimal(id.y as nat);
    assert(!last.contains('{')) by {
        if last.contains('{') {
            let i = choose|i: int| 0 <= i < last.len() && last[i] == '{';
            if i < name.len() {
                assert(name[i] == '{');
            } else if i > name.len() {
                assert(query[i - name.len() - 1] == '{');
            }
        }
    }
    assert(!slash.contains('{'));
    // The template and the address, piece after piece from the right.
    let t4 = slash + last;
    let t3 = slash + (placeholder('y') + t4);
    let t2 = slash + (placeholder('x') + t3);
    let t1 = slash + (placeholder('z') + t2);
    let a4 = slash + last;
    let a3 = slash + (y + a4);
    let a2 = slash + (x + a3);
    let a1 = slash + (z + a2);
    assert(tile_template(prefix, name, query) =~= prefix + t1);
    assert(tile_address(prefix, id, name, query) =~= prefix + a1);

    lemma_substitute_plain(last, Seq::<char>::empty(), id);
    assert(last + Seq::<char>::empty() =~= last);
    assert(last + substitute(Seq::<char>::empty(), id) =~= last);
    lemma_substitute_plain(slash, last, id);
    assert(substitute(t4, id) == a4);

    lemma_substitute_placeholder(t4, id);
    lemma_substitute_plain(slash, placeholder('y') + t4, id);
    assert(substitute(t3, id) == a3);

    lemma_substitute_placeholder(t3, id);
    lemma_substitute_plain(slash, placeholder('x') + t3, id);
    assert(substitute(t2, id) == a2);

    lemma_substitute_placeholder(t2, id);
    lemma_substitute_plain(slash, placeholder('z') + t2, id);
    assert(substitute(t1, id) == a1);

    lemma_substitute_plain(prefix, t1, id);
}

} // verus!
