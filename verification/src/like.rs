//! The like and dislike counters of the home page.

use vstd::prelude::*;
use vstd::utf8::encode_utf8;
use crate::text::{decimal, decimal_text, decimal_value, digits_value};

verus! {

/// The two counters that the home page shows.
pub struct Data {
    pub like: u64,
    pub dislike: u64,
}

impl Data {
    /// The counters after one more like.
    pub open spec fn liked(self) -> Data {
        Data { like: (self.like + 1) as u64, dislike: self.dislike }
    }

    /// The counters after one more dislike.
    pub open spec fn disliked(self) -> Data {
        Data { like: self.like, dislike: (self.dislike + 1) as u64 }
    }
}

/// The counters after `n` more likes.
pub open spec fn liked_times(d: Data, n: nat) -> Data
    decreases n,
{
    if n == 0 {
        d
    } else {
        liked_times(d, (n - 1) as nat).liked()
    }
}

/// The counters after `n` more dislikes.
pub open spec fn disliked_times(d: Data, n: nat) -> Data
    decreases n,
{
    if n == 0 {
        d
    } else {
        disliked_times(d, (n - 1) as nat).disliked()
    }
}

/// Likes add up: after `n` more likes the like counter has grown by `n` and
/// the dislike counter is unchanged.
pub proof fn likes_add_up(d: Data, n: nat)
    requires
        d.like + n <= u64::MAX,
    ensures
        liked_times(d, n) == (Data { like: (d.like + n) as u64, dislike: d.dislike }),
    decreases n,
{
    if n > 0 {
        likes_add_up(d, (n - 1) as nat);
    }
}

/// Dislikes add up: after `n` more dislikes the dislike counter has grown by
/// `n` and the like counter is unchanged.
pub proof fn dislikes_add_up(d: Data, n: nat)
    requires
        d.dislike + n <= u64::MAX,
    ensures
        disliked_times(d, n) == (Data { like: d.like, dislike: (d.dislike + n) as u64 }),
    decreases n,
{
    if n > 0 {
        dislikes_add_up(d, (n - 1) as nat);
    }
}

/// The JSON body that reports a counter: `{"<name>": <count>}`.
pub open spec fn count_body(name: Seq<char>, count: nat) -> Seq<char> {
    "{\""@ + name + "\": "@ + decimal(count) + "}"@
}

/// The body that reports the likes.
pub open spec fn like_body(count: nat) -> Seq<char> {
    count_body("like"@, count)
}

/// The body that reports the dislikes.
pub open spec fn dislike_body(count: nat) -> Seq<char> {
    count_body("dislike"@, count)
}

fn count_json(name: &str, count: u64) -> (r: String)
    ensures
        r@ == count_body(name@, count as nat),
{
    let mut s = String::new();
    s.append("{\"");
    s.append(name);
    s.append("\": ");
    s.append(decimal_text(count).as_str());
    s.append("}");
    assert(s@ =~= count_body(name@, count as nat));
    s
}

/// Counts one more like. The counter is not allowed to wrap around.
pub fn add_like(data: &mut Data)
    requires
        old(data).like < u64::MAX,
    ensures
        *final(data) == old(data).liked(),
{
    data.like = data.like + 1;
}

/// Counts one more dislike. The counter is not allowed to wrap around.
pub fn add_dislike(data: &mut Data)
    requires
        old(data).dislike < u64::MAX,
    ensures
        *final(data) == old(data).disliked(),
{
    data.dislike = data.dislike + 1;
}

/// The body of the answer to a request for the likes: `{"like": <count>}`.
pub fn get_like_json(data: &Data) -> (r: String)
    ensures
        r@ == like_body(data.like as nat),
{
    count_json("like", data.like)
}

/// The body of the answer to a request for the dislikes:
/// `{"dislike": <count>}`.
pub fn get_dislike_json(data: &Data) -> (r: String)
    ensures
        r@ == dislike_body(data.dislike as nat),
{
    count_json("dislike", data.dislike)
}

/// The like body holds the whole like counter: it is `{"like": `, then one
/// or more ASCII digits that read in base ten give the count, then `}`.
pub proof fn like_body_reports_count(count: nat)
    ensures
        like_body(count).len() >= 11,
        like_body(count).subrange(0, 9) == "{\"like\": "@,
        like_body(count).last() == '}',
        forall|i: int|
            9 <= i < like_body(count).len() - 1 ==> '0' <= #[trigger] like_body(count)[i] <= '9',
        digits_value(encode_utf8(like_body(count).subrange(9, like_body(count).len() - 1)))
            == count,
{
    reveal_strlit("{\"");
    reveal_strlit("like");
    reveal_strlit("\": ");
    reveal_strlit("}");
    reveal_strlit("{\"like\": ");
    decimal_value(count);
    let b = like_body(count);
    let d = decimal(count);
    assert(b.len() == 10 + d.len());
    assert(b.subrange(0, 9) =~= "{\"like\": "@);
    assert(b.subrange(9, b.len() - 1) =~= d);
    assert forall|i: int| 9 <= i < b.len() - 1 implies '0' <= #[trigger] b[i] <= '9' by {
        assert(b[i] == d[i - 9]);
    }
}

/// The dislike body holds the whole dislike counter: it is `{"dislike": `,
/// then one or more ASCII digits that read in base ten give the count, then
/// `}`.
pub proof fn dislike_body_reports_count(count: nat)
    ensures
        dislike_body(count).len() >= 14,
        dislike_body(count).subrange(0, 12) == "{\"dislike\": "@,
        dislike_body(count).last() == '}',
        forall|i: int|
            12 <= i < dislike_body(count).len() - 1 ==> '0' <= #[trigger] dislike_body(count)[i]
                <= '9',
        digits_value(encode_utf8(dislike_body(count).subrange(12, dislike_body(count).len() - 1)))
            == count,
{
    reveal_strlit("{\"");
    reveal_strlit("dislike");
    reveal_strlit("\": ");
    reveal_strlit("}");
    reveal_strlit("{\"dislike\": ");
    decimal_value(count);
    let b = dislike_body(count);
    let d = decimal(count);
    assert(b.len() == 13 + d.len());
    assert(b.subrange(0, 12) =~= "{\"dislike\": "@);
    assert(b.subrange(12, b.len() - 1) =~= d);
    assert forall|i: int| 12 <= i < b.len() - 1 implies '0' <= #[trigger] b[i] <= '9' by {
        assert(b[i] == d[i - 12]);
    }
}

} // verus!
