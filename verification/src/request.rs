//! The text sub-protocols spoken with counterparts that read no
//! structured messages: keyed lines, and answers made of `key:value` pieces.
//!
//! What is read is a table: every key stands in it once, at the place where
//! it came first and with the value that came last.

use crate::intent::{Intent, IntentSource, IntentType, IntentView};
use crate::message::MessageType;
use crate::text::{
    from_chars, lemma_first_absent, lemma_first_at, lemma_split_is_not_empty, same_text, split,
    split_on, split_once, split_once_on, texts, to_chars,
};
use vstd::prelude::*;

verus! {

/// The key of a request line that carries an intent.
pub const INTENT_KEY: &'static str = "Intent";

/// The key and the payload of a raw text: what stands before the first `:`
/// and what stands behind it. A text without `:` is an intent as a whole.
pub open spec fn keyed(raw: Seq<char>) -> (Seq<char>, Seq<char>) {
    match split_once_on(raw, ':') {
        Some(p) => p,
        None => (MessageType::Intent.name(), raw),
    }
}

/// Splits a raw text into its key and its payload.
pub fn split_message(raw: &str) -> (r: (String, String))
    ensures
        (r.0@, r.1@) == keyed(raw@),
{
    match split_once(raw, ':') {
        Some(p) => p,
        None => (MessageType::Intent.to_text(), raw.to_owned()),
    }
}

/// A key and its value.
pub type Pair = (Seq<char>, Seq<char>);

/// The views of a sequence of pairs, in order.
pub open spec fn pair_views(v: Seq<(String, String)>) -> Seq<Pair> {
    v.map_values(|p: (String, String)| (p.0@, p.1@))
}

/// The place of the first pair with the key `key`.
pub open spec fn key_place(pairs: Seq<Pair>, key: Seq<char>) -> Option<int> {
    pairs.map_values(|p: Pair| p.0).index_of_first(key)
}

/// The value that stands under the key `key`.
pub open spec fn value_under(pairs: Seq<Pair>, key: Seq<char>) -> Option<Seq<char>> {
    match key_place(pairs, key) {
        Some(i) => Some(pairs[i].1),
        None => None,
    }
}

/// No two pairs share a key.
pub open spec fn distinct_keys(pairs: Seq<Pair>) -> bool {
    forall|i: int, j: int| 0 <= i < j < pairs.len() ==> pairs[i].0 != pairs[j].0
}

/// The table with one more pair: it takes the place of the pair with the
/// same key, and stands last when there is none.
pub open spec fn inserted(pairs: Seq<Pair>, pair: Pair) -> Seq<Pair> {
    match key_place(pairs, pair.0) {
        Some(i) => pairs.update(i, pair),
        None => pairs.push(pair),
    }
}

/// The table that the pairs make when they are put in one after the other.
pub open spec fn merged(pairs: Seq<Pair>) -> Seq<Pair>
    decreases pairs.len(),
{
    if pairs.len() == 0 {
        Seq::empty()
    } else {
        inserted(merged(pairs.drop_last()), pairs.last())
    }
}

/// What `key_place` gives: the first place that holds the key.
pub proof fn lemma_key_place(pairs: Seq<Pair>, key: Seq<char>)
    ensures
        match key_place(pairs, key) {
            Some(i) => 0 <= i < pairs.len() && pairs[i].0 == key,
            None => forall|j: int| 0 <= j < pairs.len() ==> pairs[j].0 != key,
        },
{
    let keys = pairs.map_values(|p: Pair| p.0);
    keys.index_of_first_ensures(key);
    if key_place(pairs, key) is None {
        assert forall|j: int| 0 <= j < pairs.len() implies pairs[j].0 != key by {
            assert(keys[j] == pairs[j].0);
        }
    }
}

/// Putting a pair in keeps the keys apart.
pub proof fn lemma_inserted_distinct(pairs: Seq<Pair>, pair: Pair)
    requires
        distinct_keys(pairs),
    ensures
        distinct_keys(inserted(pairs, pair)),
{
    lemma_key_place(pairs, pair.0);
}

/// In a table no two pairs share a key.
pub proof fn lemma_merged_distinct(pairs: Seq<Pair>)
    ensures
        distinct_keys(merged(pairs)),
    decreases pairs.len(),
{
    if pairs.len() > 0 {
        lemma_merged_distinct(pairs.drop_last());
        lemma_inserted_distinct(merged(pairs.drop_last()), pairs.last());
    }
}

/// Puts a pair into a table.
pub fn insert_pair(pairs: &mut Vec<(String, String)>, key: String, value: String)
    ensures
        pair_views(final(pairs)@) == inserted(pair_views(old(pairs)@), (key@, value@)),
{
    let ghost before = pair_views(pairs@);
    let ghost keys = before.map_values(|p: Pair| p.0);
    let mut i: usize = 0;
    while i < pairs.len()
        invariant
            i <= pairs.len(),
            pairs@ == old(pairs)@,
            before == pair_views(pairs@),
            keys == before.map_values(|p: Pair| p.0),
            forall|j: int| 0 <= j < i ==> keys[j] != key@,
        decreases pairs.len() - i,
    {
        if same_text(pairs[i].0.as_str(), key.as_str()) {
            proof {
                lemma_first_at(keys, key@, i as int);
            }
            pairs[i] = (key, value);
            assert(pair_views(pairs@) =~= before.update(i as int, (key@, value@)));
            return ;
        }
        i = i + 1;
    }
    proof {
        lemma_first_absent(keys, key@);
    }
    pairs.push((key, value));
    assert(pair_views(pairs@) =~= before.push((key@, value@)));
}

/// Looks up the value under a key.
pub fn value_of(pairs: &Vec<(String, String)>, key: &str) -> (value: Option<String>)
    ensures
        match value {
            Some(v) => value_under(pair_views(pairs@), key@) == Some(v@),
            None => value_under(pair_views(pairs@), key@) is None,
        },
{
    let ghost keys = pair_views(pairs@).map_values(|p: Pair| p.0);
    let mut i: usize = 0;
    while i < pairs.len()
        invariant
            i <= pairs.len(),
            keys == pair_views(pairs@).map_values(|p: Pair| p.0),
            forall|j: int| 0 <= j < i ==> keys[j] != key@,
        decreases pairs.len() - i,
    {
        if same_text(pairs[i].0.as_str(), key) {
            proof {
                lemma_first_at(keys, key@, i as int);
            }
            return Some(pairs[i].1.clone());
        }
        i = i + 1;
    }
    proof {
        lemma_first_absent(keys, key@);
    }
    None
}

/// The key and the value of one piece of an answer: its first and its last
/// field between `:`.
pub open spec fn piece_pair(piece: Seq<char>) -> Pair {
    (split_on(piece, ':').first(), split_on(piece, ':').last())
}

/// The pairs of an answer, one for each piece between `;`, in order.
pub open spec fn piece_pairs(rough_response: Seq<char>) -> Seq<Pair> {
    split_on(rough_response, ';').map_values(|p: Seq<char>| piece_pair(p))
}

/// What an answer says: the table of its pairs.
pub open spec fn response_pairs(rough_response: Seq<char>) -> Seq<Pair> {
    merged(piece_pairs(rough_response))
}

/// Reads the table of an answer. Every key stands in it once, with the
/// value that came last.
pub fn parse_rough_response(rough_response: &str) -> (pairs: Vec<(String, String)>)
    ensures
        pair_views(pairs@) == response_pairs(rough_response@),
        distinct_keys(pair_views(pairs@)),
{
    let pieces = split(rough_response, ';');
    let ghost all = piece_pairs(rough_response@);
    let mut pairs: Vec<(String, String)> = Vec::new();
    let mut i: usize = 0;
    assert(pair_views(pairs@) =~= merged(all.take(0)));
    while i < pieces.len()
        invariant
            i <= pieces.len(),
            texts(pieces@) == split_on(rough_response@, ';'),
            all == piece_pairs(rough_response@),
            pair_views(pairs@) == merged(all.take(i as int)),
        decreases pieces.len() - i,
    {
        let fields = split(pieces[i].as_str(), ':');
        proof {
            lemma_split_is_not_empty(pieces@[i as int]@, ':');
        }
        let key = fields[0].clone();
        let value = fields[fields.len() - 1].clone();
        proof {
            assert(texts(pieces@)[i as int] == pieces@[i as int]@);
            assert(texts(fields@)[0] == fields@[0]@);
            assert(texts(fields@)[fields@.len() - 1] == fields@[fields@.len() - 1]@);
            assert(all[i as int] == (key@, value@));
            assert(all.take(i + 1).drop_last() =~= all.take(i as int));
        }
        insert_pair(&mut pairs, key, value);
        i = i + 1;
    }
    proof {
        assert(all.take(all.len() as int) =~= all);
        lemma_merged_distinct(all);
    }
    pairs
}

/// A line without the carriage return that may end it.
pub open spec fn without_return(line: Seq<char>) -> Seq<char> {
    if line.len() > 0 && line.last() == '\r' {
        line.drop_last()
    } else {
        line
    }
}

/// The lines of a text: the pieces between line feeds, each but the last
/// without the carriage return that may end it.
pub open spec fn lines_of(request: Seq<char>) -> Seq<Seq<char>> {
    let pieces = split_on(request, '\n');
    Seq::new(
        pieces.len(),
        |i: int|
            if i + 1 < pieces.len() {
                without_return(pieces[i])
            } else {
                pieces[i]
            },
    )
}

/// The keyed lines: for every line with a `:`, what stands before the
/// first one and what stands behind it.
pub open spec fn keyed_lines(lines: Seq<Seq<char>>) -> Seq<Pair> {
    lines.filter(|l: Seq<char>| split_once_on(l, ':') is Some).map_values(
        |l: Seq<char>| split_once_on(l, ':')->0,
    )
}

/// What a request says: the table of its keyed lines.
pub open spec fn request_pairs(request: Seq<char>) -> Seq<Pair> {
    merged(keyed_lines(lines_of(request)))
}

fn strip_return(line: &str) -> (stripped: String)
    ensures
        stripped@ == without_return(line@),
{
    let mut chars = to_chars(line);
    let n = chars.len();
    if n > 0 && chars[n - 1] == '\r' {
        chars.pop();
        assert(chars@ =~= line@.drop_last());
    }
    from_chars(&chars)
}

/// Reads the table of a request. Lines without `:` are skipped. Every key
/// stands in the table once, with the value that came last.
pub fn parse_request(request: &str) -> (pairs: Vec<(String, String)>)
    ensures
        pair_views(pairs@) == request_pairs(request@),
        distinct_keys(pair_views(pairs@)),
{
    let pieces = split(request, '\n');
    let ghost lines = lines_of(request@);
    let mut pairs: Vec<(String, String)> = Vec::new();
    let mut i: usize = 0;
    proof {
        reveal(Seq::filter);
        assert(pair_views(pairs@) =~= merged(keyed_lines(lines.take(0))));
    }
    while i < pieces.len()
        invariant
            i <= pieces.len(),
            texts(pieces@) == split_on(request@, '\n'),
            lines == lines_of(request@),
            lines.len() == pieces.len(),
            pair_views(pairs@) == merged(keyed_lines(lines.take(i as int))),
        decreases pieces.len() - i,
    {
        let line = if i + 1 < pieces.len() {
            strip_return(pieces[i].as_str())
        } else {
            pieces[i].clone()
        };
        proof {
            assert(texts(pieces@)[i as int] == pieces@[i as int]@);
            assert(line@ == lines[i as int]);
            assert(lines.take(i + 1) =~= lines.take(i as int).push(line@));
            lines.take(i as int).lemma_filter_push(
                line@,
                |l: Seq<char>| split_once_on(l, ':') is Some,
            );
        }
        match split_once(line.as_str(), ':') {
            Some(pair) => {
                proof {
                    let before = keyed_lines(lines.take(i as int));
                    assert(keyed_lines(lines.take(i + 1)) =~= before.push((pair.0@, pair.1@)));
                    assert(before.push((pair.0@, pair.1@)).drop_last() =~= before);
                }
                insert_pair(&mut pairs, pair.0, pair.1);
            },
            None => {},
        }
        i = i + 1;
    }
    proof {
        assert(lines.take(lines.len() as int) =~= lines);
        lemma_merged_distinct(keyed_lines(lines));
    }
    pairs
}

/// Makes the intent that a request carries: the one whose text stands under
/// the key `Intent`. It is raised by a resource, and has no origin and no
/// sub-intent yet.
pub fn request_intent(request: &str) -> (intent: Option<Intent>)
    ensures
        match value_under(request_pairs(request@), INTENT_KEY@) {
            Some(text) => intent is Some && ({
                let i: IntentView = intent->0@;
                &&& i.description == text
                &&& i.source == IntentSource::Resource
                &&& i.itype == IntentType::Intent
                &&& i.resource is None
                &&& i.sub_intents.len() == 0
                &&& i.reject_reason is None
                &&& !i.emergency
                &&& !i.finished
            }),
            None => intent is None,
        },
{
    let pairs = parse_request(request);
    match value_of(&pairs, INTENT_KEY) {
        Some(text) => Some(Intent::new(text, IntentSource::Resource, IntentType::Intent, None)),
        None => None,
    }
}

} // verus!
