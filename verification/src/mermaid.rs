//! The script that draws Mermaid diagrams, and its revalidation by clients that hold a copy.
use crate::bytes::{
    is_blank, law_trimming_takes_off_the_blanks_around, lemma_split_joined, lemma_split_len,
    lemma_split_whole, same, split, split_at_byte, trim, trim_back, trim_front, trimmed,
};
use crate::reply::{Body, BodyModel, Reply, ReplyModel, Status};
use vstd::prelude::*;
use vstd::string::*;

verus! {

/// `,`
pub const COMMA: u8 = 44;

/// A visible ASCII character, a space or a tab.
pub open spec fn is_header_byte(b: u8) -> bool {
    32 <= b < 127 || b == 9
}

/// Whether the value of a header can be read as text.
pub open spec fn is_header_text(value: Seq<u8>) -> bool {
    forall|i: int| 0 <= i < value.len() ==> is_header_byte(#[trigger] value[i])
}

/// Whether a tag stands in a list of tags between commas, leaving blanks around the tags aside.
pub open spec fn is_listed(etag: Seq<u8>, list: Seq<u8>) -> bool {
    exists|k: int|
        0 <= k < split(list, COMMA).len() && trim(#[trigger] split(list, COMMA)[k]) == etag
}

/// Whether the value of an `If-None-Match` header, where there is one, names the tag.
pub open spec fn etag_matches(header: Option<Seq<u8>>, etag: Seq<u8>) -> bool {
    match header {
        Some(value) => is_header_text(value) && is_listed(etag, value),
        None => false,
    }
}

/// The tag of the script in a given version of the program.
pub open spec fn etag_text(version: Seq<char>) -> Seq<char> {
    "\""@ + version + "\""@
}

/// What an optional header value holds.
pub open spec fn header_value(header: Option<&[u8]>) -> Option<Seq<u8>> {
    match header {
        Some(value) => Some(value@),
        None => None,
    }
}

/// The answer to a request for the script.
pub open spec fn mermaid_reply(status: Status, etag: Seq<char>, body: BodyModel) -> ReplyModel {
    ReplyModel {
        status,
        headers: seq![
            ("content-type"@, "application/javascript"@),
            ("etag"@, etag),
            ("cache-control"@, "public, no-cache"@),
        ],
        body,
    }
}

/// The tag of the script in a given version of the program.
pub fn mermaid_etag(version: &str) -> (r: String)
    ensures
        r@ == etag_text(version@),
{
    let mut r = "\"".to_string();
    r.append(version);
    r.append("\"");
    r
}

/// Whether the value of a header can be read as text.
fn reads_as_text(value: &[u8]) -> (r: bool)
    ensures
        r == is_header_text(value@),
{
    let mut i: usize = 0;
    while i < value.len()
        invariant
            i <= value@.len(),
            forall|k: int| 0 <= k < i ==> is_header_byte(#[trigger] value@[k]),
        decreases value@.len() - i,
    {
        let b = value[i];
        if !((32 <= b && b < 127) || b == 9) {
            assert(!is_header_byte(value@[i as int]));
            return false;
        }
        i = i + 1;
    }
    true
}

/// Whether the client holds the current script: its `If-None-Match` header, given as its raw value,
/// names the tag.
pub fn is_etag_match(if_none_match: Option<&[u8]>, etag: &str) -> (r: bool)
    ensures
        r == etag_matches(header_value(if_none_match), etag.spec_bytes()),
{
    match if_none_match {
        Some(value) => {
            if !reads_as_text(value) {
                return false;
            }
            let tags = split_at_byte(value, COMMA);
            let ghost all = split(value@, COMMA);
            let mut i: usize = 0;
            while i < tags.len()
                invariant
                    if_none_match == Some(value),
                    is_header_text(value@),
                    i <= tags@.len(),
                    all == split(value@, COMMA),
                    all.len() == tags@.len(),
                    forall|k: int| 0 <= k < all.len() ==> #[trigger] all[k] == tags@[k]@,
                    forall|k: int| 0 <= k < i ==> trim(#[trigger] all[k]) != etag.spec_bytes(),
                decreases tags@.len() - i,
            {
                let tag = trimmed(tags[i].as_slice());
                assert(all[i as int] == tags@[i as int]@);
                if same(tag.as_slice(), etag.as_bytes()) {
                    return true;
                }
                i = i + 1;
            }
            false
        },
        None => false,
    }
}

/// The answer to a request for the script, with the script where there is one to send. Clients are
/// told to ask again every time, so that they never keep the script of an older version.
pub fn mermaid_response(status: Status, etag: &str, body: Option<&str>) -> (r: Reply)
    ensures
        r@ == mermaid_reply(
            status,
            etag@,
            match body {
                Some(script) => BodyModel::Text(script@),
                None => BodyModel::Empty,
            },
        ),
{
    let mut headers: Vec<(String, String)> = Vec::new();
    headers.push(("content-type".to_string(), "application/javascript".to_string()));
    headers.push(("etag".to_string(), etag.to_string()));
    headers.push(("cache-control".to_string(), "public, no-cache".to_string()));
    let body = match body {
        Some(script) => Body::Text(script.to_string()),
        None => Body::Empty,
    };
    let r = Reply { status, headers, body };
    assert(r@.headers =~= mermaid_reply(status, etag@, r@.body).headers);
    r
}

/// Answers a request for the script: a client that holds the current version is told so, any other
/// gets the script.
pub fn serve_mermaid_js(if_none_match: Option<&[u8]>, etag: &str, script: &str) -> (r: Reply)
    ensures
        etag_matches(header_value(if_none_match), etag.spec_bytes()) ==> r@ == mermaid_reply(
            Status::NotModified,
            etag@,
            BodyModel::Empty,
        ),
        !etag_matches(header_value(if_none_match), etag.spec_bytes()) ==> r@ == mermaid_reply(
            Status::Success,
            etag@,
            BodyModel::Text(script@),
        ),
        r@.headers == seq![
            ("content-type"@, "application/javascript"@),
            ("etag"@, etag@),
            ("cache-control"@, "public, no-cache"@),
        ],
        etag_matches(header_value(if_none_match), etag.spec_bytes()) ==> r@.status
            == Status::NotModified && r@.body == BodyModel::Empty,
        !etag_matches(header_value(if_none_match), etag.spec_bytes()) ==> r@.status
            == Status::Success && r@.body == BodyModel::Text(script@),
{
    if is_etag_match(if_none_match, etag) {
        return mermaid_response(Status::NotModified, etag, None);
    }
    mermaid_response(Status::Success, etag, Some(script))
}

/// A tag that a client sends back as it got it is recognised, whatever other tags it sends with it.
pub proof fn law_sent_tag_matches(before: Seq<u8>, etag: Seq<u8>, after: Seq<u8>)
    requires
        is_header_text(before),
        is_header_text(etag),
        is_header_text(after),
        !etag.contains(COMMA),
        etag.len() > 0,
        !is_blank(etag[0]),
        !is_blank(etag.last()),
    ensures
        etag_matches(Some(etag), etag),
        etag_matches(Some(before.push(COMMA) + etag), etag),
        etag_matches(Some(before.push(COMMA) + etag.push(COMMA) + after), etag),
{
    lemma_split_whole(etag, COMMA);
    assert(trim(etag) == etag);
    assert(split(etag, COMMA)[0] == etag);
    assert(is_listed(etag, etag));

    lemma_split_joined(before, COMMA, etag);
    lemma_split_len(before, COMMA);
    let n = split(before, COMMA).len() as int;
    let two = before.push(COMMA) + etag;
    assert(split(two, COMMA)[n] == etag);
    assert(is_listed(etag, two));

    lemma_split_joined(two, COMMA, after);
    let three = before.push(COMMA) + etag.push(COMMA) + after;
    assert(three =~= two.push(COMMA) + after);
    assert(split(three, COMMA)[n] == etag);
    assert(is_listed(etag, three));
}

/// The tag of a version is the version between two quotation marks.
pub proof fn law_tag_is_the_version_in_quotes(version: Seq<char>)
    ensures
        etag_text(version).len() == version.len() + 2,
        etag_text(version)[0] == '"',
        etag_text(version).last() == '"',
        etag_text(version).drop_first().drop_last() == version,
{
    reveal_strlit("\"");
    assert(etag_text(version).drop_first().drop_last() =~= version);
}

/// Whatever the answer to a request for the script, its headers name the script, its tag and that it is to
/// be asked for again every time; its status and its body are those that it is given.
pub proof fn law_script_goes_out_with_its_tag(status: Status, etag: Seq<char>, body: BodyModel)
    ensures
        mermaid_reply(status, etag, body).status == status,
        mermaid_reply(status, etag, body).body == body,
        mermaid_reply(status, etag, body).headers == seq![
            ("content-type"@, "application/javascript"@),
            ("etag"@, etag),
            ("cache-control"@, "public, no-cache"@),
        ],
{
}

/// Where a piece of a text stands: between separators, or at an end of the text.
proof fn lemma_piece_place(s: Seq<u8>, sep: u8, k: int) -> (place: (int, int))
    requires
        0 <= k < split(s, sep).len(),
    ensures
        0 <= place.0 <= place.1 <= s.len(),
        split(s, sep)[k] == s.subrange(place.0, place.1),
        place.0 == 0 || s[place.0 - 1] == sep,
        k < split(s, sep).len() - 1 ==> place.1 < s.len() && s[place.1] == sep,
        k == split(s, sep).len() - 1 ==> place.1 == s.len(),
    decreases s.len(),
{
    if s.len() == 0 {
        assert(s.subrange(0, 0) =~= Seq::empty());
        (0, 0)
    } else {
        let front = s.drop_last();
        let n = front.len() as int;
        let before = split(front, sep);
        lemma_split_len(front, sep);
        if s.last() == sep && k == before.len() {
            assert(s.subrange(n + 1, n + 1) =~= Seq::empty());
            (n + 1, n + 1)
        } else {
            let place = lemma_piece_place(front, sep, k);
            assert(front.subrange(place.0, place.1) =~= s.subrange(place.0, place.1));
            if s.last() != sep && k == before.len() - 1 {
                assert(s.subrange(place.0, n + 1) =~= s.subrange(place.0, n).push(s.last()));
                (place.0, n + 1)
            } else {
                place
            }
        }
    }
}

/// A header that matches is made of visible characters, spaces and tabs, and holds the tag itself: between
/// commas or the ends of the header, with nothing but spaces and tabs around it. A client without the
/// header matches nothing.
pub proof fn law_match_names_the_tag(value: Seq<u8>, etag: Seq<u8>) -> (place: (int, int, int, int))
    requires
        etag_matches(Some(value), etag),
    ensures
        forall|i: int| 0 <= i < value.len() ==> 32 <= #[trigger] value[i] < 127 || value[i] == 9,
        0 <= place.0 <= place.1 <= place.2 <= place.3 <= value.len(),
        value.subrange(place.1, place.2) == etag,
        forall|i: int|
            place.0 <= i < place.1 || place.2 <= i < place.3 ==> #[trigger] value[i] == 32
                || value[i] == 9,
        place.0 == 0 || value[place.0 - 1] == 44,
        place.3 == value.len() || value[place.3] == 44,
        !etag_matches(None, etag),
{
    assert forall|i: int| 0 <= i < value.len() implies 32 <= #[trigger] value[i] < 127 || value[i]
        == 9 by {
        assert(is_header_byte(value[i]));
    }
    let k = choose|k: int|
        0 <= k < split(value, COMMA).len() && trim(#[trigger] split(value, COMMA)[k]) == etag;
    let piece = split(value, COMMA)[k];
    let (from, to) = lemma_piece_place(value, COMMA, k);
    let (a, b) = law_trimming_takes_off_the_blanks_around(piece);
    assert(value.subrange(from + a, from + b) =~= piece.subrange(a, b));
    assert forall|i: int|
        from <= i < from + a || from + b <= i < to implies #[trigger] value[i] == 32 || value[i]
        == 9 by {
        assert(piece[i - from] == value[i]);
    }
    (from, from + a, from + b, to)
}

proof fn lemma_trim_around(left: Seq<u8>, tag: Seq<u8>, right: Seq<u8>)
    requires
        forall|i: int| 0 <= i < left.len() ==> #[trigger] left[i] == 32 || left[i] == 9,
        forall|i: int| 0 <= i < right.len() ==> #[trigger] right[i] == 32 || right[i] == 9,
        tag.len() > 0,
        tag[0] != 32 && tag[0] != 9,
        tag.last() != 32 && tag.last() != 9,
    ensures
        trim_front(left + (tag + right)) == tag + right,
        trim_back(tag + right) == tag,
    decreases left.len() + right.len(),
{
    if left.len() > 0 {
        let rest = left.drop_first();
        assert forall|i: int| 0 <= i < rest.len() implies #[trigger] rest[i] == 32 || rest[i]
            == 9 by {
            assert(rest[i] == left[i + 1]);
        }
        lemma_trim_around(rest, tag, right);
        assert((left + (tag + right)).drop_first() =~= rest + (tag + right));
        assert((left + (tag + right))[0] == left[0]);
    } else if right.len() > 0 {
        let rest = right.drop_last();
        assert forall|i: int| 0 <= i < rest.len() implies #[trigger] rest[i] == 32 || rest[i]
            == 9 by {
            assert(rest[i] == right[i]);
        }
        lemma_trim_around(left, tag, rest);
        assert((tag + right).drop_last() =~= tag + rest);
        assert((tag + right).last() == right[right.len() - 1]);
        assert(left + (tag + right) =~= tag + right);
    } else {
        assert(tag + right =~= tag);
        assert(left + (tag + right) =~= tag);
    }
}

/// A tag is recognised with any spaces and tabs around it, whatever other tags the client sends before and
/// after it.
pub proof fn law_tag_is_recognised_among_others(
    before: Seq<u8>,
    left: Seq<u8>,
    etag: Seq<u8>,
    right: Seq<u8>,
    after: Seq<u8>,
)
    requires
        forall|i: int|
            0 <= i < before.len() ==> 32 <= #[trigger] before[i] < 127 || before[i] == 9,
        forall|i: int| 0 <= i < etag.len() ==> 32 <= #[trigger] etag[i] < 127,
        forall|i: int| 0 <= i < after.len() ==> 32 <= #[trigger] after[i] < 127 || after[i] == 9,
        forall|i: int| 0 <= i < left.len() ==> #[trigger] left[i] == 32 || left[i] == 9,
        forall|i: int| 0 <= i < right.len() ==> #[trigger] right[i] == 32 || right[i] == 9,
        !etag.contains(44),
        etag.len() > 0,
        etag[0] != 32,
        etag.last() != 32,
    ensures
        etag_matches(Some(left + (etag + right)), etag),
        etag_matches(Some(before.push(44) + (left + (etag + right))), etag),
        etag_matches(Some((left + (etag + right)).push(44) + after), etag),
        etag_matches(Some((before.push(44) + (left + (etag + right))).push(44) + after), etag),
{
    let tag = left + (etag + right);
    lemma_trim_around(left, etag, right);
    assert(trim(tag) == etag);
    assert forall|i: int| 0 <= i < tag.len() implies is_header_byte(#[trigger] tag[i]) && tag[i]
        != COMMA by {
        if i < left.len() {
            assert(tag[i] == left[i]);
        } else if i < left.len() + etag.len() {
            let j = i - left.len();
            assert(tag[i] == etag[j]);
            assert(etag.contains(etag[j]));
        } else {
            assert(tag[i] == right[i - left.len() - etag.len()]);
        }
    }
    assert(!tag.contains(COMMA));
    lemma_split_whole(tag, COMMA);
    lemma_split_joined(before, COMMA, tag);
    lemma_split_len(before, COMMA);
    let n = split(before, COMMA).len() as int;
    let two = before.push(44) + tag;
    lemma_split_joined(tag, COMMA, after);
    lemma_split_joined(two, COMMA, after);
    assert(split(tag, COMMA)[0] == tag);
    assert(is_listed(etag, tag));
    assert(split(two, COMMA)[n] == tag);
    assert(is_listed(etag, two));
    let first = tag.push(44) + after;
    assert(split(first, COMMA)[0] == tag);
    assert(is_listed(etag, first));
    let three = two.push(44) + after;
    assert(split(three, COMMA)[n] == tag);
    assert(is_listed(etag, three));
    assert(is_header_text(tag));
    assert(is_header_text(two));
    assert(is_header_text(first));
    assert(is_header_text(three));
}

} // verus!
