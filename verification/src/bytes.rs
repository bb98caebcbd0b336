//! Byte strings: comparing, splitting, trimming and ordering them.
use vstd::prelude::*;

verus! {

/// The pieces of `s` between the occurrences of `sep`, in order. There is one piece more than there
/// are separators, so a text without any is its own only piece.
pub open spec fn split(s: Seq<u8>, sep: u8) -> Seq<Seq<u8>>
    decreases s.len(),
{
    if s.len() == 0 {
        seq![Seq::empty()]
    } else {
        let before = split(s.drop_last(), sep);
        if s.last() == sep {
            before.push(Seq::empty())
        } else {
            before.drop_last().push(before.last().push(s.last()))
        }
    }
}

/// The pieces joined again, with `sep` between each two of them.
pub open spec fn unsplit(pieces: Seq<Seq<u8>>, sep: u8) -> Seq<u8>
    decreases pieces.len(),
{
    if pieces.len() == 0 {
        Seq::empty()
    } else if pieces.len() == 1 {
        pieces[0]
    } else {
        unsplit(pieces.drop_last(), sep).push(sep) + pieces.last()
    }
}

/// What a list of byte vectors holds.
pub open spec fn contents(list: Seq<Vec<u8>>) -> Seq<Seq<u8>> {
    list.map_values(|piece: Vec<u8>| piece@)
}

/// A space or a horizontal tab.
pub open spec fn is_blank(b: u8) -> bool {
    b == 32 || b == 9
}

/// `s` without the blanks in front.
pub open spec fn trim_front(s: Seq<u8>) -> Seq<u8>
    decreases s.len(),
{
    if s.len() > 0 && is_blank(s[0]) {
        trim_front(s.drop_first())
    } else {
        s
    }
}

/// `s` without the blanks at the end.
pub open spec fn trim_back(s: Seq<u8>) -> Seq<u8>
    decreases s.len(),
{
    if s.len() > 0 && is_blank(s.last()) {
        trim_back(s.drop_last())
    } else {
        s
    }
}

/// `s` without the blanks around it.
pub open spec fn trim(s: Seq<u8>) -> Seq<u8> {
    trim_back(trim_front(s))
}

/// An upper case ASCII letter made lower case; any other byte as it is.
pub open spec fn lower_byte(b: u8) -> u8 {
    if 65 <= b <= 90 {
        (b + 32) as u8
    } else {
        b
    }
}

/// `s` with its ASCII letters made lower case.
pub open spec fn lower(s: Seq<u8>) -> Seq<u8> {
    s.map_values(|b: u8| lower_byte(b))
}

/// Lexicographic order by byte value, in which a prefix comes first.
pub open spec fn lex_le(a: Seq<u8>, b: Seq<u8>) -> bool
    decreases a.len(),
{
    ||| a.len() == 0
    ||| b.len() > 0 && a[0] < b[0]
    ||| b.len() > 0 && a[0] == b[0] && lex_le(a.drop_first(), b.drop_first())
}

/// Whether two byte strings are the same.
pub fn same(a: &[u8], b: &[u8]) -> (r: bool)
    ensures
        r == (a@ == b@),
{
    if a.len() != b.len() {
        return false;
    }
    let mut i: usize = 0;
    while i < a.len()
        invariant
            i <= a.len(),
            a.len() == b.len(),
            forall|k: int| 0 <= k < i ==> a@[k] == b@[k],
        decreases a.len() - i,
    {
        if a[i] != b[i] {
            assert(a@[i as int] != b@[i as int]);
            return false;
        }
        i = i + 1;
    }
    assert(a@ =~= b@);
    true
}

/// A copy of the bytes from `from` up to `to`.
pub(crate) fn copy_range(s: &[u8], from: usize, to: usize) -> (r: Vec<u8>)
    requires
        from <= to <= s@.len(),
    ensures
        r@ == s@.subrange(from as int, to as int),
{
    let mut r: Vec<u8> = Vec::new();
    let mut i: usize = from;
    while i < to
        invariant
            from <= i <= to <= s@.len(),
            r@ == s@.subrange(from as int, i as int),
        decreases to - i,
    {
        r.push(s[i]);
        i = i + 1;
    }
    r
}

/// Cuts a byte string at every separator.
pub fn split_at_byte(s: &[u8], sep: u8) -> (r: Vec<Vec<u8>>)
    ensures
        contents(r@) == split(s@, sep),
{
    let mut pieces: Vec<Vec<u8>> = Vec::new();
    let mut piece: Vec<u8> = Vec::new();
    let mut i: usize = 0;
    assert(contents(pieces@).push(piece@) =~= split(s@.take(0), sep));
    while i < s.len()
        invariant
            i <= s@.len(),
            contents(pieces@).push(piece@) == split(s@.take(i as int), sep),
        decreases s@.len() - i,
    {
        let b = s[i];
        let ghost before = s@.take(i as int);
        let ghost after = s@.take(i + 1);
        assert(after.drop_last() =~= before && after.last() == b);
        let ghost old_pieces = pieces@;
        let ghost old_piece = piece@;
        assert(split(before, sep).drop_last() =~= contents(old_pieces));
        if b == sep {
            pieces.push(piece);
            piece = Vec::new();
            assert(contents(pieces@) =~= contents(old_pieces).push(old_piece));
        } else {
            piece.push(b);
        }
        assert(contents(pieces@).push(piece@) =~= split(after, sep));
        i = i + 1;
    }
    assert(s@.take(i as int) =~= s@);
    let ghost rest = pieces@;
    let ghost last = piece@;
    pieces.push(piece);
    assert(contents(pieces@) =~= contents(rest).push(last));
    pieces
}

/// A byte string with its ASCII letters made lower case.
pub fn to_lower(s: &[u8]) -> (r: Vec<u8>)
    ensures
        r@ == lower(s@),
{
    let mut r: Vec<u8> = Vec::new();
    let mut i: usize = 0;
    while i < s.len()
        invariant
            i <= s@.len(),
            r@ == lower(s@.take(i as int)),
        decreases s@.len() - i,
    {
        let b = s[i];
        if 65 <= b && b <= 90 {
            r.push(b + 32);
        } else {
            r.push(b);
        }
        assert(lower(s@.take(i + 1)) =~= lower(s@.take(i as int)).push(lower_byte(b)));
        i = i + 1;
    }
    assert(s@.take(i as int) =~= s@);
    r
}

/// A byte string without the blanks around it.
pub fn trimmed(s: &[u8]) -> (r: Vec<u8>)
    ensures
        r@ == trim(s@),
{
    let mut from: usize = 0;
    assert(s@.skip(0) =~= s@);
    while from < s.len() && (s[from] == 32 || s[from] == 9)
        invariant
            from <= s@.len(),
            trim_front(s@) == trim_front(s@.skip(from as int)),
        decreases s@.len() - from,
    {
        assert(s@.skip(from as int).drop_first() =~= s@.skip(from + 1));
        from = from + 1;
    }
    let ghost kept = s@.skip(from as int);
    assert(trim_front(s@) == kept);
    let mut to: usize = s.len();
    assert(s@.subrange(from as int, to as int) =~= kept);
    while from < to && (s[to - 1] == 32 || s[to - 1] == 9)
        invariant
            from <= to <= s@.len(),
            trim_back(kept) == trim_back(s@.subrange(from as int, to as int)),
        decreases to,
    {
        assert(s@.subrange(from as int, to as int).drop_last() =~= s@.subrange(
            from as int,
            to - 1,
        ));
        to = to - 1;
    }
    copy_range(s, from, to)
}

/// Whether `a` stands at or before `b` in lexicographic order.
pub fn at_most(a: &[u8], b: &[u8]) -> (r: bool)
    ensures
        r == lex_le(a@, b@),
{
    let mut i: usize = 0;
    assert(a@.skip(0) =~= a@ && b@.skip(0) =~= b@);
    while i < a.len() && i < b.len()
        invariant
            i <= a@.len(),
            i <= b@.len(),
            lex_le(a@, b@) == lex_le(a@.skip(i as int), b@.skip(i as int)),
        decreases a@.len() - i,
    {
        if a[i] < b[i] {
            return true;
        }
        if a[i] > b[i] {
            return false;
        }
        assert(a@.skip(i as int).drop_first() =~= a@.skip(i + 1));
        assert(b@.skip(i as int).drop_first() =~= b@.skip(i + 1));
        i = i + 1;
    }
    i == a.len()
}

/// There is at least one piece.
pub proof fn lemma_split_len(s: Seq<u8>, sep: u8)
    ensures
        split(s, sep).len() >= 1,
    decreases s.len(),
{
    if s.len() > 0 {
        lemma_split_len(s.drop_last(), sep);
    }
}

/// A text without a separator is its own only piece.
pub proof fn lemma_split_whole(s: Seq<u8>, sep: u8)
    requires
        !s.contains(sep),
    ensures
        split(s, sep) == seq![s],
    decreases s.len(),
{
    if s.len() > 0 {
        let front = s.drop_last();
        assert(s.last() == s[s.len() - 1]);
        assert forall|i: int| 0 <= i < front.len() implies front[i] != sep by {
            assert(front[i] == s[i]);
        }
        lemma_split_whole(front, sep);
        assert(front.push(s.last()) =~= s);
        assert(split(s, sep) =~= seq![s]);
    } else {
        assert(s =~= Seq::empty());
        assert(split(s, sep) =~= seq![s]);
    }
}

/// Cutting at one separator first, and then both sides, gives the same pieces.
pub proof fn lemma_split_joined(a: Seq<u8>, sep: u8, b: Seq<u8>)
    ensures
        split(a.push(sep) + b, sep) == split(a, sep) + split(b, sep),
    decreases b.len(),
{
    let whole = a.push(sep) + b;
    if b.len() == 0 {
        assert(whole =~= a.push(sep));
        assert(whole.drop_last() =~= a);
        assert(split(whole, sep) =~= split(a, sep) + split(b, sep));
    } else {
        let front = b.drop_last();
        lemma_split_joined(a, sep, front);
        lemma_split_len(front, sep);
        assert(whole.drop_last() =~= a.push(sep) + front);
        assert(whole.last() == b.last());
        assert(split(whole, sep) =~= split(a, sep) + split(b, sep));
    }
}

/// Joining the pieces of a text with the separator gives the text back, and no piece holds the
/// separator.
pub proof fn law_pieces_make_the_text(s: Seq<u8>, sep: u8)
    ensures
        unsplit(split(s, sep), sep) == s,
        forall|i: int|
            0 <= i < split(s, sep).len() ==> !(#[trigger] split(s, sep)[i]).contains(sep),
    decreases s.len(),
{
    let pieces = split(s, sep);
    if s.len() == 0 {
        assert(pieces[0] =~= s);
    } else {
        let front = s.drop_last();
        let before = split(front, sep);
        lemma_split_len(front, sep);
        law_pieces_make_the_text(front, sep);
        assert(front.push(s.last()) =~= s);
        if s.last() == sep {
            assert(pieces.drop_last() =~= before);
            assert(unsplit(pieces, sep) =~= s);
        } else {
            assert(pieces.drop_last() =~= before.drop_last());
            assert(unsplit(pieces, sep) =~= s);
            assert forall|i: int| 0 <= i < pieces.len() implies !(
            #[trigger] pieces[i]).contains(sep) by {
                assert(!before[i].contains(sep));
                if i == before.len() - 1 {
                    let longer = before.last().push(s.last());
                    assert(pieces[i] == longer);
                    assert forall|k: int| 0 <= k < longer.len() implies longer[k] != sep by {
                        if k < before.last().len() {
                            assert(before.last()[k] == longer[k]);
                        }
                    }
                } else {
                    assert(pieces[i] == before[i]);
                }
            }
        }
    }
}

/// Of two byte strings one stands at or before the other.
pub proof fn lemma_lex_total(a: Seq<u8>, b: Seq<u8>)
    ensures
        lex_le(a, b) || lex_le(b, a),
    decreases a.len(),
{
    if a.len() > 0 && b.len() > 0 {
        lemma_lex_total(a.drop_first(), b.drop_first());
    }
}

/// Two byte strings that stand at or before each other are the same.
pub proof fn lemma_lex_antisymmetric(a: Seq<u8>, b: Seq<u8>)
    requires
        lex_le(a, b),
        lex_le(b, a),
    ensures
        a == b,
    decreases a.len(),
{
    if a.len() > 0 && b.len() > 0 {
        lemma_lex_antisymmetric(a.drop_first(), b.drop_first());
        assert forall|i: int| 0 <= i < a.len() implies a[i] == b[i] by {
            if i > 0 {
                assert(a[i] == a.drop_first()[i - 1]);
                assert(b[i] == b.drop_first()[i - 1]);
            }
        }
        assert(a.len() == a.drop_first().len() + 1);
        assert(b.len() == b.drop_first().len() + 1);
    }
    assert(a =~= b);
}

/// The lexicographic order carries over from neighbour to neighbour.
pub proof fn lemma_lex_transitive(a: Seq<u8>, b: Seq<u8>, c: Seq<u8>)
    requires
        lex_le(a, b),
        lex_le(b, c),
    ensures
        lex_le(a, c),
    decreases a.len(),
{
    if a.len() > 0 && a[0] == b[0] && b[0] == c[0] {
        lemma_lex_transitive(a.drop_first(), b.drop_first(), c.drop_first());
    }
}

/// Trimming takes off spaces and tabs, at the two ends only, and leaves none there.
pub proof fn law_trimming_takes_off_the_blanks_around(s: Seq<u8>) -> (ends: (int, int))
    ensures
        0 <= ends.0 <= ends.1 <= s.len(),
        trim(s) == s.subrange(ends.0, ends.1),
        forall|i: int|
            0 <= i < ends.0 || ends.1 <= i < s.len() ==> #[trigger] s[i] == 32 || s[i] == 9,
        trim(s).len() > 0 ==> trim(s)[0] != 32 && trim(s)[0] != 9 && trim(s).last() != 32
            && trim(s).last() != 9,
{
    let from = lemma_trim_front(s);
    let rest = s.skip(from);
    let to = lemma_trim_back(rest);
    assert(trim(s) =~= s.subrange(from, from + to));
    assert forall|i: int| 0 <= i < from || from + to <= i < s.len() implies #[trigger] s[i] == 32
        || s[i] == 9 by {
        if i >= from {
            assert(rest[i - from] == s[i]);
        }
    }
    if to > 0 {
        assert(rest.len() > 0 && trim(s)[0] == rest[0]);
    }
    (from, from + to)
}

proof fn lemma_trim_front(s: Seq<u8>) -> (from: int)
    ensures
        0 <= from <= s.len(),
        trim_front(s) == s.skip(from),
        forall|i: int| 0 <= i < from ==> #[trigger] s[i] == 32 || s[i] == 9,
        from < s.len() ==> s[from] != 32 && s[from] != 9,
    decreases s.len(),
{
    if s.len() > 0 && (s[0] == 32 || s[0] == 9) {
        let rest = s.drop_first();
        let from = lemma_trim_front(rest);
        assert(rest.skip(from) =~= s.skip(from + 1));
        assert forall|i: int| 0 <= i < from + 1 implies #[trigger] s[i] == 32 || s[i] == 9 by {
            if i > 0 {
                assert(rest[i - 1] == s[i]);
            }
        }
        from + 1
    } else {
        assert(s.skip(0) =~= s);
        0
    }
}

proof fn lemma_trim_back(s: Seq<u8>) -> (to: int)
    ensures
        0 <= to <= s.len(),
        trim_back(s) == s.take(to),
        forall|i: int| to <= i < s.len() ==> #[trigger] s[i] == 32 || s[i] == 9,
        to > 0 ==> s[to - 1] != 32 && s[to - 1] != 9,
    decreases s.len(),
{
    if s.len() > 0 && (s.last() == 32 || s.last() == 9) {
        let rest = s.drop_last();
        let to = lemma_trim_back(rest);
        assert(rest.take(to) =~= s.take(to));
        assert forall|i: int| to <= i < s.len() implies #[trigger] s[i] == 32 || s[i] == 9 by {
            if i < s.len() - 1 {
                assert(rest[i] == s[i]);
            }
        }
        to
    } else {
        assert(s.take(s.len() as int) =~= s);
        s.len() as int
    }
}

/// Lower case changes the letters from `A` to `Z` and nothing else: each becomes the letter that stands
/// as many places after `a` as it stands after `A`.
pub proof fn law_lower_case_changes_letters_only(s: Seq<u8>, i: int)
    requires
        0 <= i < s.len(),
    ensures
        lower(s).len() == s.len(),
        65 <= s[i] <= 90 ==> lower(s)[i] - 97 == s[i] - 65,
        !(65 <= s[i] <= 90) ==> lower(s)[i] == s[i],
{
}

/// Of two byte strings, the one with the smaller byte at the first place where they differ comes first,
/// and the beginning of a string comes before the string.
pub proof fn law_order_goes_by_the_first_difference(
    start: Seq<u8>,
    x: u8,
    y: u8,
    s: Seq<u8>,
    t: Seq<u8>,
)
    requires
        x < y,
    ensures
        lex_le(start + seq![x] + s, start + seq![y] + t),
        !lex_le(start + seq![y] + t, start + seq![x] + s),
        lex_le(start, start + seq![x] + s),
        !lex_le(start + seq![x] + s, start),
        lex_le(start, start),
    decreases start.len(),
{
    let (a, b) = (start + seq![x] + s, start + seq![y] + t);
    if start.len() > 0 {
        let rest = start.drop_first();
        law_order_goes_by_the_first_difference(rest, x, y, s, t);
        assert(a.drop_first() =~= rest + seq![x] + s);
        assert(b.drop_first() =~= rest + seq![y] + t);
    } else {
        assert(a[0] == x && b[0] == y);
    }
}

} // verus!
