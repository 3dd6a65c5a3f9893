//! Reviews: the reviews kept on this machine, and what is sent to the community backend.
use vstd::prelude::*;
use crate::text::{chars_of, eq, string_of, trim, trim_end_char};

verus! {

/// A review written on this machine.
#[derive(Debug, Clone)]
pub struct LocalReview {
    pub app_id: String,
    pub rating: u32,
    pub summary: String,
    pub description: String,
    pub user_display: String,
    pub date_created: u64,
}

/// A review as sent to the community backend.
#[derive(Debug, Clone)]
pub struct ReviewSubmission {
    pub package_name: String,
    pub rating: u32,
    pub comment: String,
    pub user_name: String,
}

/// The fields of a review.
pub open spec fn review_view(r: LocalReview) -> (Seq<char>, u32, Seq<char>, Seq<char>, Seq<char>, u64) {
    (r.app_id@, r.rating, r.summary@, r.description@, r.user_display@, r.date_created)
}

/// The fields of each review.
pub open spec fn reviews_view(v: Seq<LocalReview>) -> Seq<(Seq<char>, u32, Seq<char>, Seq<char>, Seq<char>, u64)> {
    v.map_values(|r: LocalReview| review_view(r))
}

/// The test that a review is about the app `app_id`.
pub open spec fn is_for(app_id: Seq<char>) -> spec_fn((Seq<char>, u32, Seq<char>, Seq<char>, Seq<char>, u64)) -> bool {
    |r: (Seq<char>, u32, Seq<char>, Seq<char>, Seq<char>, u64)| r.0 == app_id
}

/// A review written now about `app_id`.
pub fn new_review(app_id: &str, rating: u32, summary: &str, description: &str, user_display: &str, now_secs: u64) -> (r: LocalReview)
    ensures
        review_view(r) == (app_id@, rating, summary@, description@, user_display@, now_secs),
{
    LocalReview {
        app_id: String::from_str(app_id),
        rating,
        summary: String::from_str(summary),
        description: String::from_str(description),
        user_display: String::from_str(user_display),
        date_created: now_secs,
    }
}

/// The reviews about `app_id`, in the order they were written.
pub fn reviews_for_app(reviews: Vec<LocalReview>, app_id: &str) -> (r: Vec<LocalReview>)
    ensures
        reviews_view(r@) == reviews_view(reviews@).filter(is_for(app_id@)),
{
    let a = chars_of(app_id);
    let mut out: Vec<LocalReview> = Vec::new();
    let mut rest = reviews;
    let ghost orig = rest@;
    let ghost mut i: int = 0;
    while rest.len() > 0
        invariant
            0 <= i <= orig.len(),
            a@ == app_id@,
            rest@ == orig.skip(i),
            reviews_view(out@) == reviews_view(orig.take(i)).filter(is_for(app_id@)),
        decreases rest@.len(),
    {
        let r = rest.remove(0);
        proof {
            assert(r == orig[i]);
            assert(orig.take(i + 1) == orig.take(i).push(orig[i]));
            assert(reviews_view(orig.take(i + 1)) == reviews_view(orig.take(i)).push(review_view(orig[i])));
            reviews_view(orig.take(i)).lemma_filter_push(review_view(orig[i]), is_for(app_id@));
            assert(rest@ == orig.skip(i + 1));
            i = i + 1;
        }
        let keep = eq(chars_of(r.app_id.as_str()).as_slice(), a.as_slice());
        if keep {
            let ghost before = reviews_view(out@);
            out.push(r);
            assert(reviews_view(out@) == before.push(review_view(r)));
        }
    }
    proof {
        assert(orig.take(i) == orig);
    }
    out
}

/// Every review returned for an app is about that app, and every review about it is
/// returned.
pub proof fn law_reviews_for_app(reviews: Seq<LocalReview>, app_id: Seq<char>, x: (Seq<char>, u32, Seq<char>, Seq<char>, Seq<char>, u64))
    ensures
        reviews_view(reviews).filter(is_for(app_id)).contains(x) <==> (reviews_view(reviews).contains(x) && x.0 == app_id),
{
    let v = reviews_view(reviews);
    if v.filter(is_for(app_id)).contains(x) {
        v.lemma_filter_contains_rev(is_for(app_id), x);
    }
    if v.contains(x) && x.0 == app_id {
        let k = choose|k: int| 0 <= k < v.len() && v[k] == x;
        v.lemma_filter_contains(is_for(app_id), k);
    }
    if v.filter(is_for(app_id)).contains(x) {
        let k = choose|k: int| 0 <= k < v.filter(is_for(app_id)).len() && v.filter(is_for(app_id))[k] == x;
        v.lemma_filter_pred(is_for(app_id), k);
    }
}

/// The submission sent for a review: trimmed texts and a rating clamped to 1..=5.
pub fn review_submission(app_id: &str, rating: u32, comment: &str, user_name: &str) -> (r: ReviewSubmission)
    ensures
        r.package_name@ == trim(app_id@),
        r.rating == (if rating < 1 {
            1
        } else if rating > 5 {
            5
        } else {
            rating
        }),
        r.comment@ == trim(comment@),
        r.user_name@ == trim(user_name@),
{
    let rating = if rating < 1 {
        1
    } else if rating > 5 {
        5
    } else {
        rating
    };
    ReviewSubmission {
        package_name: crate::text::trim_str(app_id),
        rating,
        comment: crate::text::trim_str(comment),
        user_name: crate::text::trim_str(user_name),
    }
}

/// The reviews endpoint of a backend: its URL without trailing slashes, then
/// `/rest/v1/reviews`.
pub fn reviews_endpoint(base_url: &str) -> (r: String)
    ensures
        r@ == trim_end_char(base_url@, '/') + "/rest/v1/reviews"@,
{
    let b = crate::text::trim_end_char_chars(chars_of(base_url).as_slice(), '/');
    let all = crate::text::concat_str(b.as_slice(), "/rest/v1/reviews");
    string_of(all.as_slice())
}

/// A setting that turns the backend off: "1", or "true" in any ASCII case.
pub open spec fn is_disabled_flag(v: Seq<char>) -> bool {
    v == "1"@ || (v.len() == 4 && forall|i: int|
        0 <= i < 4 ==> #[trigger] ascii_lower(v[i]) == "true"@[i])
}

/// The ASCII lower-case form of a character.
pub open spec fn ascii_lower(c: char) -> char {
    if 'A' <= c && c <= 'Z' {
        ((c as u32) + 32) as char
    } else {
        c
    }
}

fn ascii_lower_exec(c: char) -> (r: char)
    ensures
        r == ascii_lower(c),
{
    if 'A' <= c && c <= 'Z' {
        ((c as u8) + 32) as char
    } else {
        c
    }
}

/// Whether the backend is turned off by the setting `v`.
pub fn backend_disabled(v: &str) -> (r: bool)
    ensures
        r == is_disabled_flag(v@),
{
    let c = chars_of(v);
    proof {
        reveal_strlit("true");
        reveal_strlit("1");
    }
    if crate::text::eq_str(c.as_slice(), "1") {
        return true;
    }
    if c.len() != 4 {
        return false;
    }
    let t = chars_of("true");
    let mut i: usize = 0;
    while i < 4
        invariant
            0 <= i <= 4,
            c@.len() == 4,
            c@ == v@,
            t@ == "true"@,
            "true"@.len() == 4,
            v@ != "1"@,
            forall|j: int| 0 <= j < i ==> #[trigger] ascii_lower(c@[j]) == "true"@[j],
        decreases 4 - i,
    {
        if ascii_lower_exec(c[i]) != t[i] {
            assert(!(ascii_lower(v@[i as int]) == "true"@[i as int]));
            return false;
        }
        i += 1;
    }
    true
}

} // verus!
