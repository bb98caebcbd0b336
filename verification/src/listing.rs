//! The entries of a directory: which are shown, and in what order.
use crate::bytes::{at_most, lemma_lex_antisymmetric, lemma_lex_total, lemma_lex_transitive, lex_le};
use crate::disk::RawEntry;
use crate::media::{is_markdown_file, is_markdown_name};
use crate::path::extension_of;
use vstd::prelude::*;
use vstd::string::*;
use vstd::utf8::{encode_utf8, encode_utf8_decode_utf8};

verus! {

/// An entry of a directory as it is listed.
#[derive(Debug)]
pub struct FileEntry {
    pub name: String,
    pub path: Vec<u8>,
    pub is_dir: bool,
    pub is_markdown: bool,
}

/// Whether a name is that of a hidden file.
pub open spec fn is_hidden(name: Seq<char>) -> bool {
    name.len() > 0 && name[0] == '.'
}

/// An entry as it is listed. Only files count as Markdown, whatever a directory is called.
pub open spec fn entry_of(raw: RawEntry) -> FileEntry {
    FileEntry {
        name: raw.name,
        path: raw.path,
        is_dir: raw.is_dir,
        is_markdown: raw.is_file && is_markdown_name(raw.path@),
    }
}

/// The entries that are not hidden, in the order in which the file system gives them.
pub open spec fn visible(raws: Seq<RawEntry>) -> Seq<FileEntry>
    decreases raws.len(),
{
    if raws.len() == 0 {
        Seq::empty()
    } else if is_hidden(raws.last().name@) {
        visible(raws.drop_last())
    } else {
        visible(raws.drop_last()).push(entry_of(raws.last()))
    }
}

/// Whether an entry may stand before another: directories come first, and what is alike in that goes
/// by name.
pub open spec fn precedes(a: FileEntry, b: FileEntry) -> bool {
    ||| a.is_dir && !b.is_dir
    ||| a.is_dir == b.is_dir && lex_le(encode_utf8(a.name@), encode_utf8(b.name@))
}

/// Whether `order` goes through the places of a sequence of `n` things, each once.
pub open spec fn is_rearrangement(order: Seq<int>, n: nat) -> bool {
    &&& order.len() == n
    &&& forall|i: int| 0 <= i < n ==> 0 <= #[trigger] order[i] < n
    &&& forall|i: int, j: int| 0 <= i < j < n ==> #[trigger] order[i] != #[trigger] order[j]
    &&& forall|k: int| 0 <= k < n ==> #[trigger] order.contains(k)
}

/// Whether `listed` is `entries` in the given order.
pub open spec fn is_arranged(
    listed: Seq<FileEntry>,
    entries: Seq<FileEntry>,
    order: Seq<int>,
) -> bool {
    &&& listed.len() == entries.len()
    &&& is_rearrangement(order, entries.len())
    &&& forall|i: int| 0 <= i < listed.len() ==> #[trigger] listed[i] == entries[order[i]]
}

/// Whether `listed` is sorted, with entries that may stand either way kept in their given order.
pub open spec fn is_sorted_by_order(listed: Seq<FileEntry>, order: Seq<int>) -> bool {
    forall|i: int, j: int|
        #![trigger listed[i], listed[j]]
        0 <= i < j < listed.len() ==> precedes(listed[i], listed[j]) && (precedes(
            listed[j],
            listed[i],
        ) ==> order[i] < order[j])
}

/// Whether `listed` holds exactly the given entries, sorted, with entries that may stand either way
/// kept in their given order. The entries leave only one such list.
pub open spec fn is_listing(listed: Seq<FileEntry>, entries: Seq<FileEntry>) -> bool {
    exists|order: Seq<int>|
        is_arranged(listed, entries, order) && #[trigger] is_sorted_by_order(listed, order)
}

proof fn lemma_precedes_total(a: FileEntry, b: FileEntry)
    ensures
        precedes(a, b) || precedes(b, a),
{
    lemma_lex_total(encode_utf8(a.name@), encode_utf8(b.name@));
}

proof fn lemma_precedes_transitive(a: FileEntry, b: FileEntry, c: FileEntry)
    requires
        precedes(a, b),
        precedes(b, c),
    ensures
        precedes(a, c),
{
    if a.is_dir == b.is_dir && b.is_dir == c.is_dir {
        lemma_lex_transitive(encode_utf8(a.name@), encode_utf8(b.name@), encode_utf8(c.name@));
    }
}

/// Whether an entry may stand before another.
fn may_precede(a: &FileEntry, b: &FileEntry) -> (r: bool)
    ensures
        r == precedes(*a, *b),
{
    if a.is_dir != b.is_dir {
        a.is_dir
    } else {
        at_most(a.name.as_str().as_bytes(), b.name.as_str().as_bytes())
    }
}

/// Whether a name is that of a hidden file.
fn hidden(name: &String) -> (r: bool)
    ensures
        r == is_hidden(name@),
{
    let text = name.as_str();
    !text.is_empty() && text.get_char(0) == '.'
}

/// The place at which a new entry goes into a sorted list: behind all that may stand before it.
fn place_for(listed: &Vec<FileEntry>, entry: &FileEntry, Ghost(order): Ghost<Seq<int>>) -> (r:
    usize)
    requires
        is_sorted_by_order(listed@, order),
    ensures
        r <= listed@.len(),
        forall|k: int| 0 <= k < r ==> precedes(#[trigger] listed@[k], *entry),
        forall|k: int| r <= k < listed@.len() ==> !precedes(#[trigger] listed@[k], *entry),
{
    let mut low: usize = 0;
    let mut high: usize = listed.len();
    while low < high
        invariant
            low <= high <= listed@.len(),
            is_sorted_by_order(listed@, order),
            forall|k: int| 0 <= k < low ==> precedes(#[trigger] listed@[k], *entry),
            forall|k: int| high <= k < listed@.len() ==> !precedes(#[trigger] listed@[k], *entry),
        decreases high - low,
    {
        let mid: usize = low + (high - low) / 2;
        let ghost pivot = listed@[mid as int];
        if may_precede(&listed[mid], entry) {
            assert forall|k: int| 0 <= k <= mid implies precedes(
                #[trigger] listed@[k],
                *entry,
            ) by {
                if k < mid {
                    lemma_precedes_transitive(listed@[k], pivot, *entry);
                }
            }
            low = mid + 1;
        } else {
            assert forall|k: int| mid <= k < listed@.len() implies !precedes(
                #[trigger] listed@[k],
                *entry,
            ) by {
                if k > mid && precedes(listed@[k], *entry) {
                    lemma_precedes_transitive(pivot, listed@[k], *entry);
                }
            }
            high = mid;
        }
    }
    low
}

/// Putting the entry that comes last into its place keeps a list arranged and sorted.
proof fn lemma_placed(
    listed: Seq<FileEntry>,
    entries: Seq<FileEntry>,
    order: Seq<int>,
    entry: FileEntry,
    place: int,
)
    requires
        is_arranged(listed, entries, order),
        is_sorted_by_order(listed, order),
        0 <= place <= listed.len(),
        forall|k: int| 0 <= k < place ==> precedes(#[trigger] listed[k], entry),
        forall|k: int| place <= k < listed.len() ==> !precedes(#[trigger] listed[k], entry),
    ensures
        is_arranged(
            listed.insert(place, entry),
            entries.push(entry),
            order.insert(place, entries.len() as int),
        ),
        is_sorted_by_order(
            listed.insert(place, entry),
            order.insert(place, entries.len() as int),
        ),
{
    let n = entries.len() as int;
    let listed2 = listed.insert(place, entry);
    let order2 = order.insert(place, n);
    let entries2 = entries.push(entry);
    assert forall|k: int| 0 <= k < n + 1 implies #[trigger] order2.contains(k) by {
        if k == n {
            assert(order2[place] == n);
        } else {
            assert(order.contains(k));
            let i = order.index_of(k);
            if i < place {
                assert(order2[i] == k);
            } else {
                assert(order2[i + 1] == k);
            }
        }
    }
    assert forall|i: int| 0 <= i < n + 1 implies 0 <= #[trigger] order2[i] < n + 1 by {
        if i < place {
            assert(order2[i] == order[i]);
        } else if i > place {
            assert(order2[i] == order[i - 1]);
        }
    }
    assert forall|i: int, j: int| 0 <= i < j < n + 1 implies #[trigger] order2[i]
        != #[trigger] order2[j] by {
        let i0 = if i < place { i } else { i - 1 };
        let j0 = if j < place { j } else { j - 1 };
        if i != place {
            assert(order2[i] == order[i0]);
        }
        if j != place {
            assert(order2[j] == order[j0]);
        }
    }
    assert forall|i: int| 0 <= i < listed2.len() implies #[trigger] listed2[i]
        == entries2[order2[i]] by {
        if i < place {
            assert(listed2[i] == listed[i] && order2[i] == order[i]);
        } else if i > place {
            assert(listed2[i] == listed[i - 1] && order2[i] == order[i - 1]);
        }
    }
    assert forall|i: int, j: int|
        #![trigger listed2[i], listed2[j]]
        0 <= i < j < listed2.len() implies precedes(listed2[i], listed2[j]) && (precedes(
        listed2[j],
        listed2[i],
    ) ==> order2[i] < order2[j]) by {
        let i0 = if i < place { i } else { i - 1 };
        let j0 = if j < place { j } else { j - 1 };
        if i == place {
            assert(listed2[j] == listed[j0]);
            lemma_precedes_total(entry, listed[j0]);
        } else if j == place {
            assert(listed2[i] == listed[i0]);
            assert(order2[i] == order[i0]);
        } else {
            assert(listed2[i] == listed[i0] && listed2[j] == listed[j0]);
            assert(order2[i] == order[i0] && order2[j] == order[j0]);
        }
    }
}

/// Lists the entries of a directory: hidden ones are left out, directories come first, and what is
/// alike in that is sorted by name.
pub fn list_entries(raws: Vec<RawEntry>) -> (r: Vec<FileEntry>)
    ensures
        is_listing(r@, visible(raws@)),
        forall|i: int|
            0 <= i < r@.len() && (#[trigger] r@[i]).name@.len() > 0 ==> r@[i].name@[0] != '.',
{
    let mut listed: Vec<FileEntry> = Vec::new();
    let ghost mut order: Seq<int> = Seq::empty();
    let ghost all = raws@;
    assert(is_arranged(listed@, visible(all.take(0)), order));
    for raw in it: raws
        invariant
            it.seq() == all,
            is_arranged(listed@, visible(all.take(it.index() as int)), order),
            is_sorted_by_order(listed@, order),
    {
        let ghost i = it.index() as int;
        assert(raw == all[i]);
        assert(all.take(i + 1).drop_last() =~= all.take(i));
        if !hidden(&raw.name) {
            let is_markdown = raw.is_file && is_markdown_file(raw.path.as_slice());
            let entry = FileEntry {
                name: raw.name,
                path: raw.path,
                is_dir: raw.is_dir,
                is_markdown,
            };
            assert(entry == entry_of(all[i]));
            let place = place_for(&listed, &entry, Ghost(order));
            proof {
                lemma_placed(listed@, visible(all.take(i)), order, entry, place as int);
                order = order.insert(place as int, visible(all.take(i)).len() as int);
            }
            listed.insert(place, entry);
        }
    }
    assert(all.take(all.len() as int) =~= all);
    assert forall|i: int|
        0 <= i < listed@.len() && (#[trigger] listed@[i]).name@.len() > 0 implies listed@[i].name@[0]
        != '.' by {
        law_listing_leaves_hidden_out(all, listed@, i);
    }
    listed
}

proof fn lemma_same_order(
    entries: Seq<FileEntry>,
    a: Seq<FileEntry>,
    p: Seq<int>,
    b: Seq<FileEntry>,
    q: Seq<int>,
    i: int,
)
    requires
        is_arranged(a, entries, p),
        is_sorted_by_order(a, p),
        is_arranged(b, entries, q),
        is_sorted_by_order(b, q),
        0 <= i < entries.len(),
    ensures
        p[i] == q[i],
    decreases i,
{
    assert forall|k: int| 0 <= k < i implies p[k] == q[k] by {
        lemma_same_order(entries, a, p, b, q, k);
    }
    if p[i] != q[i] {
        // The entry that the one list has here stands further back in the other, and the reverse.
        assert(q.contains(p[i]));
        assert(p.contains(q[i]));
        let j = q.index_of(p[i]);
        let k = p.index_of(q[i]);
        assert(j > i) by {
            if j < i {
                assert(p[j] == q[j]);
            }
        }
        assert(k > i) by {
            if k < i {
                assert(p[k] == q[k]);
            }
        }
        assert(a[i] == entries[p[i]] && a[k] == entries[p[k]]);
        assert(b[i] == entries[q[i]] && b[j] == entries[q[j]]);
        assert(precedes(a[i], a[k]) && precedes(b[i], b[j]));
    }
}

/// The entries of a directory leave only one list.
pub proof fn law_listing_is_determined(
    entries: Seq<FileEntry>,
    a: Seq<FileEntry>,
    b: Seq<FileEntry>,
)
    requires
        is_listing(a, entries),
        is_listing(b, entries),
    ensures
        a == b,
{
    let p = choose|order: Seq<int>|
        is_arranged(a, entries, order) && #[trigger] is_sorted_by_order(a, order);
    let q = choose|order: Seq<int>|
        is_arranged(b, entries, order) && #[trigger] is_sorted_by_order(b, order);
    assert forall|i: int| 0 <= i < a.len() implies a[i] == b[i] by {
        lemma_same_order(entries, a, p, b, q, i);
    }
    assert(a =~= b);
}

/// Whether no two entries that agree in being a directory or not have the same name.
pub open spec fn has_distinct_names(entries: Seq<FileEntry>) -> bool {
    forall|i: int, j: int|
        #![trigger entries[i], entries[j]]
        0 <= i < j < entries.len() && entries[i].is_dir == entries[j].is_dir
            ==> entries[i].name@ != entries[j].name@
}

/// The list does not depend on the order in which the file system gives the entries.
pub proof fn law_listing_ignores_given_order(
    entries: Seq<FileEntry>,
    a: Seq<FileEntry>,
    shuffled: Seq<FileEntry>,
    shuffle: Seq<int>,
    b: Seq<FileEntry>,
)
    requires
        has_distinct_names(entries),
        is_arranged(shuffled, entries, shuffle),
        is_listing(a, entries),
        is_listing(b, shuffled),
    ensures
        a == b,
{
    let n = entries.len() as int;
    let q = choose|order: Seq<int>|
        is_arranged(b, shuffled, order) && #[trigger] is_sorted_by_order(b, order);
    let both = Seq::new(entries.len(), |i: int| shuffle[q[i]]);
    assert forall|k: int| 0 <= k < n implies #[trigger] both.contains(k) by {
        assert(shuffle.contains(k));
        let j = shuffle.index_of(k);
        assert(q.contains(j));
        let i = q.index_of(j);
        assert(both[i] == k);
    }
    assert forall|i: int, j: int| 0 <= i < j < n implies #[trigger] both[i] != #[trigger] both[j] by {
        assert(q[i] != q[j]);
        if q[i] < q[j] {
            assert(shuffle[q[i]] != shuffle[q[j]]);
        } else {
            assert(shuffle[q[j]] != shuffle[q[i]]);
        }
    }
    assert forall|i: int| 0 <= i < n implies 0 <= #[trigger] both[i] < n by {
        assert(0 <= q[i] < n);
    }
    assert forall|i: int| 0 <= i < b.len() implies #[trigger] b[i] == entries[both[i]] by {
        assert(b[i] == shuffled[q[i]]);
        assert(shuffled[q[i]] == entries[shuffle[q[i]]]);
    }
    assert(is_arranged(b, entries, both));
    assert forall|i: int, j: int|
        #![trigger b[i], b[j]]
        0 <= i < j < b.len() implies precedes(b[i], b[j]) && (precedes(b[j], b[i]) ==> both[i]
        < both[j]) by {
        if precedes(b[j], b[i]) {
            let (x, y) = (entries[both[i]], entries[both[j]]);
            assert(b[i] == x && b[j] == y);
            lemma_lex_antisymmetric(encode_utf8(x.name@), encode_utf8(y.name@));
            encode_utf8_decode_utf8(x.name@);
            encode_utf8_decode_utf8(y.name@);
            assert(x.name@ == y.name@ && x.is_dir == y.is_dir);
            assert(both[i] != both[j]);
        }
    }
    assert(is_sorted_by_order(b, both));
    law_listing_is_determined(entries, a, b);
}

/// No hidden entry is listed.
pub proof fn law_listing_leaves_hidden_out(raws: Seq<RawEntry>, listed: Seq<FileEntry>, i: int)
    requires
        is_listing(listed, visible(raws)),
        0 <= i < listed.len(),
    ensures
        !is_hidden(listed[i].name@),
{
    let order = choose|order: Seq<int>|
        is_arranged(listed, visible(raws), order) && #[trigger] is_sorted_by_order(listed, order);
    lemma_visible(raws, order[i]);
}

proof fn lemma_visible(raws: Seq<RawEntry>, i: int)
    requires
        0 <= i < visible(raws).len(),
    ensures
        !is_hidden(visible(raws)[i].name@),
    decreases raws.len(),
{
    if i < visible(raws.drop_last()).len() {
        lemma_visible(raws.drop_last(), i);
    }
}

/// Every entry that is not hidden is listed.
pub proof fn law_listing_shows_the_rest(raws: Seq<RawEntry>, listed: Seq<FileEntry>, i: int)
    requires
        is_listing(listed, visible(raws)),
        0 <= i < raws.len(),
        !is_hidden(raws[i].name@),
    ensures
        listed.contains(entry_of(raws[i])),
{
    let order = choose|order: Seq<int>|
        is_arranged(listed, visible(raws), order) && #[trigger] is_sorted_by_order(listed, order);
    lemma_shown(raws, i);
    let k = visible(raws).index_of(entry_of(raws[i]));
    assert(order.contains(k));
    let j = order.index_of(k);
    assert(listed[j] == visible(raws)[order[j]]);
}

proof fn lemma_shown(raws: Seq<RawEntry>, i: int)
    requires
        0 <= i < raws.len(),
        !is_hidden(raws[i].name@),
    ensures
        visible(raws).contains(entry_of(raws[i])),
    decreases raws.len(),
{
    let all = visible(raws);
    if i < raws.len() - 1 {
        let before = visible(raws.drop_last());
        lemma_shown(raws.drop_last(), i);
        let k = before.index_of(entry_of(raws[i]));
        assert(all[k] == before[k]);
    } else {
        assert(all[all.len() - 1] == entry_of(raws[i]));
    }
}

/// Directories stand before files.
pub proof fn law_directories_come_first(
    entries: Seq<FileEntry>,
    listed: Seq<FileEntry>,
    i: int,
    j: int,
)
    requires
        is_listing(listed, entries),
        0 <= i < listed.len(),
        0 <= j < listed.len(),
        listed[i].is_dir,
        !listed[j].is_dir,
    ensures
        i < j,
{
    let order = choose|order: Seq<int>|
        is_arranged(listed, entries, order) && #[trigger] is_sorted_by_order(listed, order);
    if j < i {
        assert(precedes(listed[j], listed[i]));
    }
}

/// The places of the entries that are not hidden, in the order in which the file system gives them.
pub open spec fn shown_places(raws: Seq<RawEntry>) -> Seq<int>
    decreases raws.len(),
{
    if raws.len() == 0 {
        Seq::empty()
    } else if is_hidden(raws.last().name@) {
        shown_places(raws.drop_last())
    } else {
        shown_places(raws.drop_last()).push(raws.len() - 1)
    }
}

proof fn lemma_shown_places(raws: Seq<RawEntry>)
    ensures
        shown_places(raws).len() == visible(raws).len(),
        forall|k: int|
            0 <= k < visible(raws).len() ==> 0 <= #[trigger] shown_places(raws)[k] < raws.len()
                && visible(raws)[k] == entry_of(raws[shown_places(raws)[k]]) && !is_hidden(
                raws[shown_places(raws)[k]].name@,
            ),
        forall|j: int, k: int|
            0 <= j < k < visible(raws).len() ==> #[trigger] shown_places(raws)[j]
                < #[trigger] shown_places(raws)[k],
        forall|p: int|
            0 <= p < raws.len() && !is_hidden((#[trigger] raws[p]).name@) ==> shown_places(
                raws,
            ).contains(p),
    decreases raws.len(),
{
    if raws.len() > 0 {
        let front = raws.drop_last();
        let n = raws.len() - 1;
        lemma_shown_places(front);
        let (old_places, places) = (shown_places(front), shown_places(raws));
        assert forall|k: int| 0 <= k < visible(raws).len() implies 0 <= #[trigger] places[k]
            < raws.len() && visible(raws)[k] == entry_of(raws[places[k]]) && !is_hidden(
            raws[places[k]].name@,
        ) by {
            if k < old_places.len() {
                assert(places[k] == old_places[k]);
                assert(front[old_places[k]] == raws[old_places[k]]);
            }
        }
        assert forall|j: int, k: int| 0 <= j < k < visible(raws).len() implies #[trigger] places[j]
            < #[trigger] places[k] by {
            assert(places[j] == old_places[j]);
            if k < old_places.len() {
                assert(places[k] == old_places[k]);
            }
        }
        assert forall|p: int|
            0 <= p < raws.len() && !is_hidden((#[trigger] raws[p]).name@) implies places.contains(
            p,
        ) by {
            if p < n {
                assert(front[p] == raws[p]);
                assert(old_places.contains(p));
                let k = old_places.index_of(p);
                assert(places[k] == p);
            } else {
                assert(places[places.len() - 1] == p);
            }
        }
    }
}

/// A listing holds each given entry whose name does not begin with `.` once, and no other: each listed
/// entry has the name, the path and the kind of the given one that it stands for, and counts as Markdown
/// where that is a file with one of three extensions. Directories come before all else, then names go
/// by their bytes, and what is alike in both stays in the given order.
pub proof fn law_listing_holds_the_given_entries(
    raws: Seq<RawEntry>,
    listed: Seq<FileEntry>,
) -> (places: Seq<int>)
    requires
        is_listing(listed, visible(raws)),
    ensures
        places.len() == listed.len(),
        forall|i: int| 0 <= i < listed.len() ==> 0 <= #[trigger] places[i] < raws.len(),
        forall|i: int, j: int|
            0 <= i < j < listed.len() ==> #[trigger] places[i] != #[trigger] places[j],
        forall|i: int|
            0 <= i < listed.len() ==> (#[trigger] listed[i]).name == raws[places[i]].name
                && listed[i].path == raws[places[i]].path && listed[i].is_dir
                == raws[places[i]].is_dir && (listed[i].is_markdown <==> raws[places[i]].is_file && (
            extension_of(raws[places[i]].path@) == Some("md".spec_bytes()) || extension_of(
                raws[places[i]].path@,
            ) == Some("markdown".spec_bytes()) || extension_of(raws[places[i]].path@) == Some(
                "txt".spec_bytes(),
            ))),
        forall|i: int|
            0 <= i < listed.len() && (#[trigger] listed[i]).name@.len() > 0 ==> listed[i].name@[0]
                != '.',
        forall|p: int|
            0 <= p < raws.len() && ((#[trigger] raws[p]).name@.len() == 0 || raws[p].name@[0]
                != '.') ==> places.contains(p),
        forall|i: int, j: int|
            #![trigger listed[i], listed[j]]
            0 <= i < j < listed.len() ==> {
                &&& listed[j].is_dir ==> listed[i].is_dir
                &&& listed[i].is_dir == listed[j].is_dir ==> lex_le(
                    encode_utf8(listed[i].name@),
                    encode_utf8(listed[j].name@),
                )
                &&& listed[i].is_dir == listed[j].is_dir && listed[i].name@ == listed[j].name@
                    ==> places[i] < places[j]
            },
{
    let order = choose|order: Seq<int>|
        is_arranged(listed, visible(raws), order) && #[trigger] is_sorted_by_order(listed, order);
    lemma_shown_places(raws);
    let shown = shown_places(raws);
    let places = Seq::new(listed.len(), |i: int| shown[order[i]]);
    assert forall|i: int, j: int| 0 <= i < j < listed.len() implies #[trigger] places[i]
        != #[trigger] places[j] by {
        assert(order[i] != order[j]);
        if order[i] < order[j] {
            assert(shown[order[i]] < shown[order[j]]);
        } else {
            assert(shown[order[j]] < shown[order[i]]);
        }
    }
    assert forall|p: int|
        0 <= p < raws.len() && ((#[trigger] raws[p]).name@.len() == 0 || raws[p].name@[0]
            != '.') implies places.contains(p) by {
        assert(shown.contains(p));
        let k = shown.index_of(p);
        assert(order.contains(k));
        let i = order.index_of(k);
        assert(places[i] == p);
    }
    assert forall|i: int, j: int|
        #![trigger listed[i], listed[j]]
        0 <= i < j < listed.len() implies {
        &&& listed[j].is_dir ==> listed[i].is_dir
        &&& listed[i].is_dir == listed[j].is_dir ==> lex_le(
            encode_utf8(listed[i].name@),
            encode_utf8(listed[j].name@),
        )
        &&& listed[i].is_dir == listed[j].is_dir && listed[i].name@ == listed[j].name@ ==> places[i]
            < places[j]
    } by {
        assert(precedes(listed[i], listed[j]));
        if listed[i].is_dir == listed[j].is_dir && listed[i].name@ == listed[j].name@ {
            assert(precedes(listed[j], listed[i]));
            assert(shown[order[i]] < shown[order[j]]);
        }
    }
    assert forall|i: int|
        0 <= i < listed.len() && (#[trigger] listed[i]).name@.len() > 0 implies listed[i].name@[0]
        != '.' by {
        assert(listed[i] == visible(raws)[order[i]]);
        assert(!is_hidden(raws[shown[order[i]]].name@));
    }
    places
}

} // verus!
