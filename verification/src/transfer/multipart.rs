//! Multipart upload requests: URLs, the completion body, part ordering.

use vstd::prelude::*;

use crate::http::ObjectKey;
use crate::ops::head::{object_url, object_url_of};
use crate::text::{decimal, push_decimal};
use crate::transfer::part::PartResult;

verus! {

broadcast use {vstd::seq_lib::to_multiset_insert, vstd::seq_lib::to_multiset_build};

/// `POST {object}?uploads`: initiates a multipart upload.
pub open spec fn initiate_url_spec(endpoint: Seq<char>, bucket: Seq<char>, key: Seq<char>) -> Seq<char> {
    object_url(endpoint, bucket, key) + "?uploads"@
}

/// `{object}?uploadId={id}`: completes (`POST`) or aborts (`DELETE`) an upload.
pub open spec fn upload_id_url_spec(
    endpoint: Seq<char>,
    bucket: Seq<char>,
    key: Seq<char>,
    upload_id: Seq<char>,
) -> Seq<char> {
    object_url(endpoint, bucket, key) + "?uploadId="@ + upload_id
}

/// `PUT {object}?partNumber={n}&uploadId={id}`: uploads one part.
pub open spec fn part_url_spec(
    endpoint: Seq<char>,
    bucket: Seq<char>,
    key: Seq<char>,
    part_number: u32,
    upload_id: Seq<char>,
) -> Seq<char> {
    object_url(endpoint, bucket, key) + "?partNumber="@ + decimal(part_number as nat) + "&uploadId="@
        + upload_id
}

/// The URL that initiates a multipart upload of `key`.
pub fn initiate_url(endpoint: &str, bucket: &str, key: &ObjectKey) -> (u: String)
    ensures
        u@ == initiate_url_spec(endpoint@, bucket@, key.spec_raw()),
{
    let mut u = object_url_of(endpoint, bucket, key);
    u.append("?uploads");
    u
}

/// The URL that completes or aborts the upload `upload_id` of `key`.
pub fn upload_id_url(endpoint: &str, bucket: &str, key: &ObjectKey, upload_id: &str) -> (u: String)
    ensures
        u@ == upload_id_url_spec(endpoint@, bucket@, key.spec_raw(), upload_id@),
{
    let mut u = object_url_of(endpoint, bucket, key);
    u.append("?uploadId=");
    u.append(upload_id);
    u
}

/// The URL that uploads part `part_number` of the upload `upload_id`.
pub fn part_url(endpoint: &str, bucket: &str, key: &ObjectKey, part_number: u32, upload_id: &str) -> (u:
    String)
    ensures
        u@ == part_url_spec(endpoint@, bucket@, key.spec_raw(), part_number, upload_id@),
{
    let mut u = object_url_of(endpoint, bucket, key);
    u.append("?partNumber=");
    push_decimal(&mut u, part_number as u64);
    u.append("&uploadId=");
    u.append(upload_id);
    u
}

/// Part numbers never decrease along the list.
pub open spec fn sorted_by_number(parts: Seq<PartResult>) -> bool {
    forall|i: int, j: int| 0 <= i <= j < parts.len() ==> parts[i].number <= parts[j].number
}

/// The `<Part>` element for one uploaded part.
pub open spec fn part_xml(p: PartResult) -> Seq<char> {
    "<Part><PartNumber>"@ + decimal(p.number as nat) + "</PartNumber><ETag>"@ + p.etag@
        + "</ETag></Part>"@
}

/// The `<Part>` elements of a list of parts, in order.
pub open spec fn parts_xml(parts: Seq<PartResult>) -> Seq<char>
    decreases parts.len(),
{
    if parts.len() == 0 {
        Seq::empty()
    } else {
        parts_xml(parts.drop_last()) + part_xml(parts.last())
    }
}

/// The `CompleteMultipartUpload` request body for a list of parts.
pub open spec fn complete_xml(parts: Seq<PartResult>) -> Seq<char> {
    "<CompleteMultipartUpload>"@ + parts_xml(parts) + "</CompleteMultipartUpload>"@
}

impl Clone for PartResult {
    fn clone(&self) -> (r: Self)
        ensures
            r == *self,
    {
        PartResult { etag: self.etag.clone(), number: self.number }
    }
}

/// The part results numbered `n`.
pub open spec fn with_number(n: u32) -> spec_fn(PartResult) -> bool {
    |p: PartResult| p.number == n
}

proof fn lemma_filter_none(s: Seq<PartResult>, n: u32)
    requires
        forall|q: int| 0 <= q < s.len() ==> #[trigger] s[q].number != n,
    ensures
        s.filter(with_number(n)) == Seq::<PartResult>::empty(),
    decreases s.len(),
{
    reveal(Seq::filter);
    if s.len() > 0 {
        assert forall|q: int| 0 <= q < s.drop_last().len() implies #[trigger] s.drop_last()[q].number
            != n by {
            assert(s.drop_last()[q] == s[q]);
        }
        lemma_filter_none(s.drop_last(), n);
        assert(s.last() == s[s.len() - 1]);
        assert(!(with_number(n))(s.last()));
    } else {
        assert(s =~= Seq::<PartResult>::empty());
    }
}

/// Inserting `item` before a run of larger part numbers adds it at the end
/// of the results with its number and leaves the others alone.
proof fn lemma_insert_stable(sorted: Seq<PartResult>, p: int, item: PartResult, n: u32)
    requires
        0 <= p <= sorted.len(),
        forall|q: int| p <= q < sorted.len() ==> #[trigger] sorted[q].number > item.number,
    ensures
        sorted.insert(p, item).filter(with_number(n)) == if item.number == n {
            sorted.filter(with_number(n)).push(item)
        } else {
            sorted.filter(with_number(n))
        },
{
    reveal(Seq::filter);
    let f = with_number(n);
    let a = sorted.take(p);
    let b = sorted.skip(p);
    let one = seq![item];
    assert(sorted =~= a + b);
    assert(sorted.insert(p, item) =~= (a + one) + b);
    Seq::filter_distributes_over_add(a, b, f);
    Seq::filter_distributes_over_add(a + one, b, f);
    Seq::filter_distributes_over_add(a, one, f);
    assert(one.drop_last() =~= Seq::<PartResult>::empty());
    assert(one.last() == item);
    assert(Seq::<PartResult>::empty().filter(f) =~= Seq::<PartResult>::empty());
    assert(one.drop_last().filter(f) =~= Seq::<PartResult>::empty());
    assert(f(item) == (item.number == n));
    if item.number == n {
        assert forall|q: int| 0 <= q < b.len() implies #[trigger] b[q].number != n by {
            assert(b[q] == sorted[p + q]);
        }
        lemma_filter_none(b, n);
        assert(one.filter(f) =~= seq![item]);
        assert(sorted.insert(p, item).filter(f) =~= sorted.filter(f).push(item));
    } else {
        assert(one.filter(f) =~= Seq::<PartResult>::empty());
        assert(sorted.insert(p, item).filter(f) =~= sorted.filter(f));
    }
}

/// Put the part results in part-number order: a stable sort, so results
/// with the same number keep their order.
pub fn sort_by_number(results: &mut Vec<PartResult>)
    ensures
        final(results)@.to_multiset() == old(results)@.to_multiset(),
        sorted_by_number(final(results)@),
        forall|n: u32| #[trigger] final(results)@.filter(with_number(n)) == old(results)@.filter(
            with_number(n),
        ),
{
    let mut sorted: Vec<PartResult> = Vec::new();
    let mut i: usize = 0;
    proof {
        assert(results@.take(0) =~= sorted@);
    }
    while i < results.len()
        invariant
            i <= results.len(),
            sorted@.to_multiset() == results@.take(i as int).to_multiset(),
            sorted_by_number(sorted@),
            forall|n: u32| #[trigger] sorted@.filter(with_number(n)) == results@.take(i as int).filter(
                with_number(n),
            ),
        decreases results.len() - i,
    {
        let item = results[i].clone();
        let mut p: usize = sorted.len();
        while p > 0 && sorted[p - 1].number > item.number
            invariant
                p <= sorted.len(),
                sorted_by_number(sorted@),
                forall|q: int| p <= q < sorted.len() ==> #[trigger] sorted@[q].number > item.number,
            decreases p,
        {
            p = p - 1;
        }
        let ghost before = sorted@;
        sorted.insert(p, item);
        proof {
            assert(results@.take(i + 1) =~= results@.take(i as int).push(results@[i as int]));
            assert(sorted@ == before.insert(p as int, item));
            assert(results@.take(i + 1).drop_last() =~= results@.take(i as int));
            assert(results@.take(i + 1).last() == item);
            assert forall|n: u32| #[trigger] sorted@.filter(with_number(n)) == results@.take(i + 1).filter(
                with_number(n),
            ) by {
                reveal(Seq::filter);
                lemma_insert_stable(before, p as int, item, n);
            }
            assert forall|a: int, b: int| 0 <= a <= b < sorted@.len() implies sorted@[a].number
                <= sorted@[b].number by {
                if a < p && b > p {
                    assert(before[a].number <= before[b - 1].number);
                }
            }
        }
        i = i + 1;
    }
    proof {
        assert(results@.take(results.len() as int) =~= results@);
    }
    *results = sorted;
}

/// The `CompleteMultipartUpload` body: the parts sorted by number, each as
/// `<Part><PartNumber>n</PartNumber><ETag>etag</ETag></Part>`.
pub fn complete_body(results: &mut Vec<PartResult>) -> (body: String)
    ensures
        final(results)@.to_multiset() == old(results)@.to_multiset(),
        sorted_by_number(final(results)@),
        forall|n: u32| #[trigger] final(results)@.filter(with_number(n)) == old(results)@.filter(
            with_number(n),
        ),
        body@ == complete_xml(final(results)@),
{
    sort_by_number(results);
    let mut xml = "<CompleteMultipartUpload>".to_owned();
    let ghost head = xml@;
    let mut i: usize = 0;
    while i < results.len()
        invariant
            i <= results.len(),
            xml@ == head + parts_xml(results@.take(i as int)),
        decreases results.len() - i,
    {
        xml.append("<Part><PartNumber>");
        push_decimal(&mut xml, results[i].number as u64);
        xml.append("</PartNumber><ETag>");
        xml.append(results[i].etag.as_str());
        xml.append("</ETag></Part>");
        proof {
            assert(results@.take(i + 1).drop_last() =~= results@.take(i as int));
            assert(xml@ =~= head + parts_xml(results@.take(i + 1)));
        }
        i = i + 1;
    }
    xml.append("</CompleteMultipartUpload>");
    proof {
        assert(results@.take(results.len() as int) =~= results@);
        assert(xml@ =~= complete_xml(results@));
    }
    xml
}

} // verus!
