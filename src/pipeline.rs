//! The tagging pipeline's decisions: which tags of each category a probability vector
//! keeps, and in what order.
//!
//! For each of the rating, character and general categories, the tags of that
//! category whose probability reaches the threshold (`>=`, NaN never does) are listed
//! by descending probability; equal probabilities keep the registry's row order.
//! Tags of the other categories are never listed.
use vstd::prelude::*;
use vstd::string::StringExecFns;
use indexmap::IndexMap;
use itertools::Itertools;
use crate::error::TaggerError;
use crate::processor::ImagePreprocessor;
use crate::score::{at_least, is_nan_bits, meets_threshold, order_key, probability_key};
use crate::tags::{LabelTags, Tag, TagCategory, TagView, names_distinct, pairs_of, pairs_view};

verus! {

/// indexmap's insertion-ordered map, opaque: its entries are seen through
/// `prediction_entries`.
#[verifier::external_type_specification]
#[verifier::external_body]
#[verifier::reject_recursive_types(K)]
#[verifier::reject_recursive_types(V)]
#[verifier::reject_recursive_types(S)]
pub struct ExIndexMap<K, V, S>(IndexMap<K, V, S>);

/// Tag names with their probabilities (`f32` bit patterns), in ranking order.
pub type Prediction = IndexMap<String, u32>;

/// The entries of a prediction map, in its order.
pub uninterp spec fn prediction_entries(m: IndexMap<String, u32>) -> Seq<(Seq<char>, u32)>;

/// Relies on `IndexMap::new`: a map without entries.
#[verifier::external_body]
fn empty_prediction() -> (r: Prediction)
    ensures
        prediction_entries(r) == Seq::<(Seq<char>, u32)>::empty(),
{
    IndexMap::new()
}

/// Relies on `IndexMap::insert`: a key not yet in the map goes last in order and
/// `None` is returned; a key already there keeps its place, takes the new value and
/// the old value is returned.
#[verifier::external_body]
fn insert_entry(m: &mut Prediction, name: String, prob: u32) -> (r: Option<u32>)
    ensures
        (forall|i: int| 0 <= i < prediction_entries(*old(m)).len() ==> prediction_entries(*old(m))[i].0 != name@)
            ==> prediction_entries(*final(m)) == prediction_entries(*old(m)).push((name@, prob)) && r is None,
        forall|i: int|
            0 <= i < prediction_entries(*old(m)).len() && prediction_entries(*old(m))[i].0 == name@ && (forall|j: int|
                0 <= j < i ==> prediction_entries(*old(m))[j].0 != name@) ==> prediction_entries(*final(m))
                == prediction_entries(*old(m)).update(i, (name@, prob)) && r == Some(
                prediction_entries(*old(m))[i].1,
            ),
{
    m.insert(name, prob)
}

/// Whether the tag at position `i` belongs in the list of `category` at threshold `t`.
pub open spec fn in_scope(tags: Seq<TagView>, probs: Seq<u32>, category: TagCategory, t: u32, i: int) -> bool {
    &&& 0 <= i < probs.len()
    &&& i < tags.len()
    &&& tags[i].category == category
    &&& at_least(probs[i], t)
}

/// Whether position `i` comes before position `j`: a higher probability first, and
/// on equal probabilities the earlier position.
pub open spec fn ranks_before(probs: Seq<u32>, i: int, j: int) -> bool {
    order_key(probs[i]) > order_key(probs[j]) || (order_key(probs[i]) == order_key(probs[j]) && i < j)
}

/// Whether `ids` lists exactly the positions in scope, each once, in ranking order.
pub open spec fn is_ranking(ids: Seq<int>, tags: Seq<TagView>, probs: Seq<u32>, category: TagCategory, t: u32) -> bool {
    &&& forall|k: int| 0 <= k < ids.len() ==> in_scope(tags, probs, category, t, #[trigger] ids[k])
    &&& forall|i: int| in_scope(tags, probs, category, t, i) ==> ids.contains(i)
    &&& forall|k: int, l: int| 0 <= k < l < ids.len() ==> ranks_before(probs, #[trigger] ids[k], #[trigger] ids[l])
}

/// The name and probability of each listed position.
pub open spec fn entries_of(ids: Seq<int>, tags: Seq<TagView>, probs: Seq<u32>) -> Seq<(Seq<char>, u32)> {
    ids.map_values(|i: int| (tags[i].name, probs[i]))
}

/// Whether `entries` is the ranked list of `category` at threshold `t`.
pub open spec fn ranked_entries(
    entries: Seq<(Seq<char>, u32)>,
    tags: Seq<TagView>,
    probs: Seq<u32>,
    category: TagCategory,
    t: u32,
) -> bool {
    exists|ids: Seq<int>| is_ranking(ids, tags, probs, category, t) && entries == entries_of(ids, tags, probs)
}

/// The order of two candidates `(probability, position)`: `Less` when the first ranks
/// before the second.
fn rank_order(a: &(u32, usize), b: &(u32, usize)) -> (r: std::cmp::Ordering)
    ensures
        (r == std::cmp::Ordering::Less) == (order_key(a.0) > order_key(b.0) || (order_key(a.0) == order_key(b.0) && a.1 < b.1)),
        (r == std::cmp::Ordering::Greater) == (order_key(b.0) > order_key(a.0) || (order_key(a.0) == order_key(b.0) && b.1 < a.1)),
{
    let ka = probability_key(a.0);
    let kb = probability_key(b.0);
    if ka > kb {
        std::cmp::Ordering::Less
    } else if ka < kb {
        std::cmp::Ordering::Greater
    } else if a.1 < b.1 {
        std::cmp::Ordering::Less
    } else if a.1 > b.1 {
        std::cmp::Ordering::Greater
    } else {
        std::cmp::Ordering::Equal
    }
}

/// Whether candidate `a` ranks before candidate `b`.
pub open spec fn candidate_before(a: (u32, usize), b: (u32, usize)) -> bool {
    order_key(a.0) > order_key(b.0) || (order_key(a.0) == order_key(b.0) && a.1 < b.1)
}

/// Relies on itertools' `sorted_by`, which collects the items and sorts them with
/// `slice::sort_by`: the same items, none placed after one that `rank_order` puts
/// after it (`rank_order` is a total order).
#[verifier::external_body]
fn sort_by_value(items: Vec<(u32, usize)>) -> (r: Vec<(u32, usize)>)
    ensures
        r@.to_multiset() == items@.to_multiset(),
        forall|k: int, l: int| 0 <= k < l < r@.len() ==> !candidate_before(#[trigger] r@[l], #[trigger] r@[k]),
{
    items.into_iter().sorted_by(|a, b| rank_order(a, b)).collect()
}


/// The probabilities of a list of pairs.
pub open spec fn pair_probs(pairs: Seq<(String, u32)>) -> Seq<u32> {
    pairs.map_values(|e: (String, u32)| e.1)
}

/// The candidates of one category: `(probability, position)` of each tag of that
/// category that reaches the threshold, by position.
fn select_candidates(
    pairs: &Vec<(String, u32)>,
    tags: &Vec<Tag>,
    category: TagCategory,
    threshold: u32,
) -> (r: Vec<(u32, usize)>)
    requires
        pairs@.len() == tags@.len(),
    ensures
        forall|k: int|
            0 <= k < r@.len() ==> (#[trigger] r@[k]).0 == pair_probs(pairs@)[r@[k].1 as int] && in_scope(
                tags@.map_values(|t: Tag| t@),
                pair_probs(pairs@),
                category,
                threshold,
                r@[k].1 as int,
            ),
        forall|i: int|
            in_scope(tags@.map_values(|t: Tag| t@), pair_probs(pairs@), category, threshold, i)
                ==> r@.contains((pair_probs(pairs@)[i], i as usize)),
        forall|k: int, l: int| 0 <= k < l < r@.len() ==> (#[trigger] r@[k]).1 < (#[trigger] r@[l]).1,
{
    let ghost tv = tags@.map_values(|t: Tag| t@);
    let ghost probs = pair_probs(pairs@);
    let mut out: Vec<(u32, usize)> = Vec::new();
    let mut i: usize = 0;
    while i < pairs.len()
        invariant
            i <= pairs@.len(),
            pairs@.len() == tags@.len(),
            tv == tags@.map_values(|t: Tag| t@),
            probs == pair_probs(pairs@),
            forall|k: int| 0 <= k < out@.len() ==> (#[trigger] out@[k]).1 < i,
            forall|k: int|
                0 <= k < out@.len() ==> (#[trigger] out@[k]).0 == probs[out@[k].1 as int] && in_scope(
                    tv,
                    probs,
                    category,
                    threshold,
                    out@[k].1 as int,
                ),
            forall|j: int| 0 <= j < i && in_scope(tv, probs, category, threshold, j) ==> out@.contains((probs[j], j as usize)),
            forall|k: int, l: int| 0 <= k < l < out@.len() ==> (#[trigger] out@[k]).1 < (#[trigger] out@[l]).1,
        decreases pairs.len() - i,
    {
        let p = pairs[i].1;
        assert(p == probs[i as int]);
        assert(tags@[i as int]@ == tv[i as int]);
        let ghost before = out@;
        if tags[i].category() == category && meets_threshold(p, threshold) {
            out.push((p, i));
            assert(out@[before.len() as int] == (p, i));
            assert forall|j: int| 0 <= j < i + 1 && in_scope(tv, probs, category, threshold, j) implies out@.contains((probs[j], j as usize)) by {
                if j < i {
                    let k = choose|k: int| 0 <= k < before.len() && before[k] == (probs[j], j as usize);
                    assert(out@[k] == before[k]);
                }
            }
        } else {
            assert forall|j: int| 0 <= j < i + 1 && in_scope(tv, probs, category, threshold, j) implies out@.contains((probs[j], j as usize)) by {
                if j == i {
                    assert(in_scope(tv, probs, category, threshold, j));
                }
            }
        }
        i = i + 1;
    }
    out
}

/// The prediction map of ranked candidates: each position's name with its probability.
fn build_prediction(ranked: &Vec<(u32, usize)>, pairs: &Vec<(String, u32)>) -> (r: Prediction)
    requires
        forall|k: int| 0 <= k < ranked@.len() ==> (#[trigger] ranked@[k]).1 < pairs@.len(),
        forall|k: int, l: int| 0 <= k < l < ranked@.len() ==> (#[trigger] ranked@[k]).1 != (#[trigger] ranked@[l]).1,
        forall|i: int, j: int| 0 <= i < j < pairs@.len() ==> (#[trigger] pairs@[i]).0@ != (#[trigger] pairs@[j]).0@,
    ensures
        prediction_entries(r) == ranked@.map_values(|e: (u32, usize)| (pairs@[e.1 as int].0@, e.0)),
{
    let mut m = empty_prediction();
    let mut k: usize = 0;
    while k < ranked.len()
        invariant
            k <= ranked@.len(),
            forall|q: int| 0 <= q < ranked@.len() ==> (#[trigger] ranked@[q]).1 < pairs@.len(),
            forall|q: int, l: int| 0 <= q < l < ranked@.len() ==> (#[trigger] ranked@[q]).1 != (#[trigger] ranked@[l]).1,
            forall|i: int, j: int| 0 <= i < j < pairs@.len() ==> (#[trigger] pairs@[i]).0@ != (#[trigger] pairs@[j]).0@,
            prediction_entries(m) =~= ranked@.subrange(0, k as int).map_values(
                |e: (u32, usize)| (pairs@[e.1 as int].0@, e.0),
            ),
        decreases ranked.len() - k,
    {
        let id = ranked[k].1;
        let name = pairs[id].0.clone();
        let ghost before = prediction_entries(m);
        assert forall|i: int| 0 <= i < before.len() implies before[i].0 != name@ by {
            let other = ranked@[i].1 as int;
            assert(before[i].0 == pairs@[other].0@);
            assert(ranked@[i].1 != ranked@[k as int].1);
            if other < id {
                assert(pairs@[other].0@ != pairs@[id as int].0@);
            } else {
                assert(pairs@[id as int].0@ != pairs@[other].0@);
            }
        }
        insert_entry(&mut m, name, ranked[k].0);
        assert(ranked@.subrange(0, k + 1).map_values(|e: (u32, usize)| (pairs@[e.1 as int].0@, e.0))
            =~= before.push((pairs@[id as int].0@, ranked@[k as int].0)));
        k = k + 1;
    }
    assert(ranked@.subrange(0, ranked@.len() as int) =~= ranked@);
    m
}


/// The ranked list of one category.
fn rank_category(
    pairs: &Vec<(String, u32)>,
    tags: &Vec<Tag>,
    category: TagCategory,
    threshold: u32,
) -> (r: Prediction)
    requires
        pairs@.len() == tags@.len(),
        pairs_view(pairs@) == pairs_of(tags@.map_values(|t: Tag| t@), pair_probs(pairs@)),
        names_distinct(tags@.map_values(|t: Tag| t@)),
    ensures
        ranked_entries(
            prediction_entries(r),
            tags@.map_values(|t: Tag| t@),
            pair_probs(pairs@),
            category,
            threshold,
        ),
{
    let ghost tv = tags@.map_values(|t: Tag| t@);
    let ghost probs = pair_probs(pairs@);
    let n = pairs.len();
    assert(probs.len() == n);
    let candidates = select_candidates(pairs, tags, category, threshold);
    let ghost sel = candidates@;
    let ranked = sort_by_value(candidates);
    let ghost rs = ranked@;
    proof {
        broadcast use vstd::seq_lib::group_to_multiset_ensures;

        assert(sel.no_duplicates()) by {
            assert forall|a: int, b: int| 0 <= a < sel.len() && 0 <= b < sel.len() && a != b implies sel[a] != sel[b] by {
                if a < b {
                    assert(sel[a].1 < sel[b].1);
                } else {
                    assert(sel[b].1 < sel[a].1);
                }
            }
        }
        sel.lemma_multiset_has_no_duplicates();
        rs.lemma_multiset_has_no_duplicates_conv();
        assert forall|k: int| 0 <= k < rs.len() implies sel.contains(#[trigger] rs[k]) by {
            assert(rs.contains(rs[k]));
            assert(rs.to_multiset().count(rs[k]) > 0);
        }
        assert forall|x: (u32, usize)| sel.contains(x) implies rs.contains(x) by {
            assert(sel.to_multiset().count(x) > 0);
        }
    }
    let ghost names = pairs@.map_values(|e: (String, u32)| e.0@);
    proof {
        assert forall|i: int, j: int| 0 <= i < j < pairs@.len() implies (#[trigger] pairs@[i]).0@ != (#[trigger] pairs@[j]).0@ by {
            assert(pairs_view(pairs@)[i] == pairs_of(tv, probs)[i]);
            assert(pairs_view(pairs@)[j] == pairs_of(tv, probs)[j]);
        }
        assert forall|k: int| 0 <= k < rs.len() implies (#[trigger] rs[k]).1 < pairs@.len() by {
            let q = choose|q: int| 0 <= q < sel.len() && sel[q] == rs[k];
            assert(in_scope(tv, probs, category, threshold, sel[q].1 as int));
        }
        assert forall|k: int, l: int| 0 <= k < l < rs.len() implies (#[trigger] rs[k]).1 != (#[trigger] rs[l]).1 by {
            let qk = choose|q: int| 0 <= q < sel.len() && sel[q] == rs[k];
            let ql = choose|q: int| 0 <= q < sel.len() && sel[q] == rs[l];
            assert(sel[qk].0 == probs[sel[qk].1 as int]);
            assert(sel[ql].0 == probs[sel[ql].1 as int]);
        }
    }
    let m = build_prediction(&ranked, pairs);
    proof {
        let ids = rs.map_values(|e: (u32, usize)| e.1 as int);
        assert forall|k: int| 0 <= k < rs.len() implies (#[trigger] rs[k]).0 == probs[rs[k].1 as int] && in_scope(
            tv,
            probs,
            category,
            threshold,
            rs[k].1 as int,
        ) by {
            let q = choose|q: int| 0 <= q < sel.len() && sel[q] == rs[k];
            assert(sel[q].0 == probs[sel[q].1 as int]);
        }
        assert forall|k: int| 0 <= k < ids.len() implies in_scope(tv, probs, category, threshold, #[trigger] ids[k]) by {
            assert(in_scope(tv, probs, category, threshold, rs[k].1 as int));
        }
        assert forall|i: int| in_scope(tv, probs, category, threshold, i) implies ids.contains(i) by {
            assert(sel.contains((probs[i], i as usize)));
            assert(rs.contains((probs[i], i as usize)));
            let k = choose|k: int| 0 <= k < rs.len() && rs[k] == (probs[i], i as usize);
            assert(0 <= i < n);
            assert(ids[k] == rs[k].1 as int);
        }
        assert forall|k: int, l: int| 0 <= k < l < ids.len() implies ranks_before(probs, #[trigger] ids[k], #[trigger] ids[l]) by {
            assert(!candidate_before(rs[l], rs[k]));
            assert(rs[k] != rs[l]);
            assert(rs[k].0 == probs[rs[k].1 as int]);
            assert(rs[l].0 == probs[rs[l].1 as int]);
        }
        assert(is_ranking(ids, tv, probs, category, threshold));
        assert forall|k: int| 0 <= k < rs.len() implies pairs@[rs[k].1 as int].0@ == tv[ids[k]].name && rs[k].0 == probs[ids[k]] by {
            let i = rs[k].1 as int;
            assert(pairs_view(pairs@)[i] == pairs_of(tv, probs)[i]);
        }
        assert(prediction_entries(m) =~= entries_of(ids, tv, probs));
    }
    m
}


/// The tags kept for one image, per category, each list ranked.
#[derive(Debug)]
pub struct TaggingResult {
    /// Rating tags.
    pub rating: Prediction,
    /// Character tags.
    pub character: Prediction,
    /// General tags.
    pub general: Prediction,
}

/// Whether `r` holds, for each of its three categories, the ranked list of tags that
/// `probs` puts at or above threshold `t`.
pub open spec fn result_matches(r: TaggingResult, tags: Seq<TagView>, probs: Seq<u32>, t: u32) -> bool {
    &&& ranked_entries(prediction_entries(r.rating), tags, probs, TagCategory::Rating, t)
    &&& ranked_entries(prediction_entries(r.character), tags, probs, TagCategory::Character, t)
    &&& ranked_entries(prediction_entries(r.general), tags, probs, TagCategory::General, t)
}

impl TaggingResult {
    /// The three ranked lists of one vector of name/probability pairs.
    fn new(pairs: &Vec<(String, u32)>, tags: &Vec<Tag>, threshold: u32) -> (r: Self)
        requires
            pairs@.len() == tags@.len(),
            pairs_view(pairs@) == pairs_of(tags@.map_values(|t: Tag| t@), pair_probs(pairs@)),
            names_distinct(tags@.map_values(|t: Tag| t@)),
        ensures
            result_matches(r, tags@.map_values(|t: Tag| t@), pair_probs(pairs@), threshold),
    {
        TaggingResult {
            rating: rank_category(pairs, tags, TagCategory::Rating, threshold),
            character: rank_category(pairs, tags, TagCategory::Character, threshold),
            general: rank_category(pairs, tags, TagCategory::General, threshold),
        }
    }
}

proof fn lemma_pair_probs(pairs: Seq<(String, u32)>, tags: Seq<TagView>, probs: Seq<u32>)
    requires
        pairs_view(pairs) == pairs_of(tags, probs),
    ensures
        pair_probs(pairs) == probs,
        pairs.len() == probs.len(),
        pairs_view(pairs) == pairs_of(tags, pair_probs(pairs)),
{
    assert(pairs_view(pairs).len() == pairs.len());
    assert(pairs_of(tags, probs).len() == probs.len());
    assert(pairs.len() == probs.len());
    assert forall|i: int| 0 <= i < probs.len() implies pair_probs(pairs)[i] == probs[i] by {
        assert(pairs_view(pairs)[i] == pairs_of(tags, probs)[i]);
        assert(pairs_view(pairs)[i].1 == pairs[i].1);
    }
    assert(pair_probs(pairs) =~= probs);
}

/// Tags an image's probabilities: the preprocessor that makes the model's input, the
/// registry that names its output, and the threshold a probability must reach.
#[derive(Debug)]
pub struct TaggingPipeline {
    pub preprocessor: ImagePreprocessor,
    pub tags: LabelTags,
    /// The threshold, as the bit pattern of an `f32`.
    pub threshold: u32,
}

impl TaggingPipeline {
    /// A pipeline with a fixed threshold (the bit pattern of an `f32`; see
    /// `score::DEFAULT_THRESHOLD` for the usual `0.35`).
    pub fn new(preprocessor: ImagePreprocessor, tags: LabelTags, threshold: u32) -> (r: Self)
        ensures
            r.preprocessor == preprocessor,
            r.tags == tags,
            r.threshold == threshold,
    {
        TaggingPipeline { preprocessor, tags, threshold }
    }

    /// Tags a batch from the model's output: one probability vector per image, in
    /// registry order. Fails with a tag error unless every vector has one entry per
    /// tag.
    pub fn tag_probabilities(&self, probs: Vec<Vec<u32>>) -> (r: Result<Vec<TaggingResult>, TaggerError>)
        ensures
            r is Ok <==> forall|b: int| 0 <= b < probs@.len() ==> (#[trigger] probs@[b])@.len() == self.tags@.len(),
            r matches Ok(results) ==> results@.len() == probs@.len() && forall|b: int|
                0 <= b < results@.len() ==> result_matches(
                    #[trigger] results@[b],
                    self.tags@,
                    probs@[b]@,
                    self.threshold,
                ),
            r matches Err(e) ==> e is Tag,
    {
        let ghost rows = probs@.map_values(|v: Vec<u32>| v@);
        assert(forall|b: int| 0 <= b < probs@.len() ==> rows[b] == (#[trigger] probs@[b])@);
        let pairs = match self.tags.create_probality_pairs(probs) {
            Ok(p) => p,
            Err(e) => {
                return Err(e);
            },
        };
        let tags = self.tags.idx2tag();
        let ghost tv = tags@.map_values(|t: Tag| t@);
        let mut out: Vec<TaggingResult> = Vec::new();
        let mut b: usize = 0;
        while b < pairs.len()
            invariant
                b <= pairs@.len(),
                pairs@.len() == rows.len(),
                tv == self.tags@,
                tv == tags@.map_values(|t: Tag| t@),
                names_distinct(tv),
                forall|q: int| 0 <= q < pairs@.len() ==> pairs_view(#[trigger] pairs@[q]@) == pairs_of(tv, rows[q]),
                forall|q: int| 0 <= q < rows.len() ==> (#[trigger] rows[q]).len() == tv.len(),
                out@.len() == b,
                forall|q: int| 0 <= q < b ==> result_matches(#[trigger] out@[q], tv, rows[q], self.threshold),
            decreases pairs.len() - b,
        {
            proof {
                lemma_pair_probs(pairs@[b as int]@, tv, rows[b as int]);
            }
            let res = TaggingResult::new(&pairs[b], tags, self.threshold);
            out.push(res);
            b = b + 1;
        }
        Ok(out)
    }

    /// Tags the first image of the model's output, as `tag_probabilities` does. Fails
    /// with an engine error when the output holds no vector at all.
    pub fn tag_single(&self, probs: Vec<Vec<u32>>) -> (r: Result<TaggingResult, TaggerError>)
        ensures
            r is Ok <==> probs@.len() > 0 && forall|b: int| 0 <= b < probs@.len() ==> (#[trigger] probs@[b])@.len() == self.tags@.len(),
            r matches Ok(res) ==> result_matches(res, self.tags@, probs@[0]@, self.threshold),
            r matches Err(e) ==> (if probs@.len() == 0 { e is Ort } else { e is Tag }),
    {
        if probs.len() == 0 {
            return Err(TaggerError::Ort(String::from_str("the model returned no output")));
        }
        let results = self.tag_probabilities(probs);
        match results {
            Ok(mut results) => {
                let res = results.swap_remove(0);
                Ok(res)
            },
            Err(e) => Err(e),
        }
    }
}


/// Whether a list holds an entry named `name`.
pub open spec fn lists(entries: Seq<(Seq<char>, u32)>, name: Seq<char>) -> bool {
    exists|k: int| 0 <= k < entries.len() && entries[k].0 == name
}

/// A tag is listed in a category's ranking exactly when it is of that category and
/// its probability reaches the threshold.
pub proof fn lemma_listed_iff(
    entries: Seq<(Seq<char>, u32)>,
    tags: Seq<TagView>,
    probs: Seq<u32>,
    category: TagCategory,
    t: u32,
    i: int,
)
    requires
        ranked_entries(entries, tags, probs, category, t),
        names_distinct(tags),
        tags.len() == probs.len(),
        0 <= i < tags.len(),
    ensures
        lists(entries, tags[i].name) <==> (tags[i].category == category && at_least(probs[i], t)),
{
    let ids = choose|ids: Seq<int>| is_ranking(ids, tags, probs, category, t) && entries == entries_of(ids, tags, probs);
    if tags[i].category == category && at_least(probs[i], t) {
        assert(in_scope(tags, probs, category, t, i));
        assert(ids.contains(i));
        let k = choose|k: int| 0 <= k < ids.len() && ids[k] == i;
        assert(entries_of(ids, tags, probs)[k] == (tags[ids[k]].name, probs[ids[k]]));
        assert(entries[k].0 == tags[i].name);
    }
    if lists(entries, tags[i].name) {
        let k = choose|k: int| 0 <= k < entries.len() && entries[k].0 == tags[i].name;
        let j = ids[k];
        assert(in_scope(tags, probs, category, t, j));
        assert(entries_of(ids, tags, probs)[k] == (tags[ids[k]].name, probs[ids[k]]));
        assert(entries[k].0 == tags[j].name);
        if j < i {
            assert(tags[j].name != tags[i].name);
        } else if i < j {
            assert(tags[i].name != tags[j].name);
        }
    }
}

/// Filtering is threshold-inclusive: a tag whose probability equals the threshold is
/// listed under its category (when that is rating, character or general), and a tag
/// whose probability is strictly below it is listed nowhere.
pub proof fn lemma_threshold_inclusive(r: TaggingResult, tags: Seq<TagView>, probs: Seq<u32>, t: u32, i: int)
    requires
        result_matches(r, tags, probs, t),
        names_distinct(tags),
        tags.len() == probs.len(),
        0 <= i < tags.len(),
    ensures
        probs[i] == t && !is_nan_bits(t) ==> {
            &&& tags[i].category == TagCategory::Rating ==> lists(prediction_entries(r.rating), tags[i].name)
            &&& tags[i].category == TagCategory::Character ==> lists(prediction_entries(r.character), tags[i].name)
            &&& tags[i].category == TagCategory::General ==> lists(prediction_entries(r.general), tags[i].name)
        },
        order_key(probs[i]) < order_key(t) ==> {
            &&& !lists(prediction_entries(r.rating), tags[i].name)
            &&& !lists(prediction_entries(r.character), tags[i].name)
            &&& !lists(prediction_entries(r.general), tags[i].name)
        },
{
    lemma_listed_iff(prediction_entries(r.rating), tags, probs, TagCategory::Rating, t, i);
    lemma_listed_iff(prediction_entries(r.character), tags, probs, TagCategory::Character, t, i);
    lemma_listed_iff(prediction_entries(r.general), tags, probs, TagCategory::General, t, i);
}

/// The three lists partition within their scope: a tag is listed only under its own
/// category, so in at most one list, and an artist, copyright or meta tag in none.
pub proof fn lemma_partition(r: TaggingResult, tags: Seq<TagView>, probs: Seq<u32>, t: u32, i: int)
    requires
        result_matches(r, tags, probs, t),
        names_distinct(tags),
        tags.len() == probs.len(),
        0 <= i < tags.len(),
    ensures
        lists(prediction_entries(r.rating), tags[i].name) ==> tags[i].category == TagCategory::Rating,
        lists(prediction_entries(r.character), tags[i].name) ==> tags[i].category == TagCategory::Character,
        lists(prediction_entries(r.general), tags[i].name) ==> tags[i].category == TagCategory::General,
        !(lists(prediction_entries(r.rating), tags[i].name) && lists(prediction_entries(r.character), tags[i].name)),
        !(lists(prediction_entries(r.rating), tags[i].name) && lists(prediction_entries(r.general), tags[i].name)),
        !(lists(prediction_entries(r.character), tags[i].name) && lists(prediction_entries(r.general), tags[i].name)),
        (tags[i].category == TagCategory::Artist || tags[i].category == TagCategory::Copyright
            || tags[i].category == TagCategory::Meta) ==> {
            &&& !lists(prediction_entries(r.rating), tags[i].name)
            &&& !lists(prediction_entries(r.character), tags[i].name)
            &&& !lists(prediction_entries(r.general), tags[i].name)
        },
{
    lemma_listed_iff(prediction_entries(r.rating), tags, probs, TagCategory::Rating, t, i);
    lemma_listed_iff(prediction_entries(r.character), tags, probs, TagCategory::Character, t, i);
    lemma_listed_iff(prediction_entries(r.general), tags, probs, TagCategory::General, t, i);
}

/// Each list comes in non-increasing order of probability.
pub proof fn lemma_non_increasing(
    entries: Seq<(Seq<char>, u32)>,
    tags: Seq<TagView>,
    probs: Seq<u32>,
    category: TagCategory,
    t: u32,
)
    requires
        ranked_entries(entries, tags, probs, category, t),
    ensures
        forall|k: int, l: int| 0 <= k < l < entries.len() ==> order_key(#[trigger] entries[k].1) >= order_key(#[trigger] entries[l].1),
{
    let ids = choose|ids: Seq<int>| is_ranking(ids, tags, probs, category, t) && entries == entries_of(ids, tags, probs);
    assert forall|k: int, l: int| 0 <= k < l < entries.len() implies order_key(#[trigger] entries[k].1) >= order_key(#[trigger] entries[l].1) by {
        assert(ranks_before(probs, ids[k], ids[l]));
        assert(entries_of(ids, tags, probs)[k] == (tags[ids[k]].name, probs[ids[k]]));
        assert(entries_of(ids, tags, probs)[l] == (tags[ids[l]].name, probs[ids[l]]));
    }
}

proof fn lemma_sorted_unique(a: Seq<int>, b: Seq<int>, probs: Seq<u32>)
    requires
        forall|k: int, l: int| 0 <= k < l < a.len() ==> ranks_before(probs, #[trigger] a[k], #[trigger] a[l]),
        forall|k: int, l: int| 0 <= k < l < b.len() ==> ranks_before(probs, #[trigger] b[k], #[trigger] b[l]),
        forall|x: int| a.contains(x) <==> b.contains(x),
    ensures
        a == b,
    decreases a.len(),
{
    if a.len() == 0 {
        if b.len() > 0 {
            assert(b.contains(b[0]));
        }
        assert(a =~= b);
    } else if b.len() == 0 {
        assert(a.contains(a[0]));
    } else {
        assert(a.contains(a[0]));
        assert(b.contains(b[0]));
        if a[0] != b[0] {
            let q = choose|q: int| 0 <= q < b.len() && b[q] == a[0];
            let p = choose|p: int| 0 <= p < a.len() && a[p] == b[0];
            assert(ranks_before(probs, b[0], b[q]));
            assert(ranks_before(probs, a[0], a[p]));
        }
        let a2 = a.drop_first();
        let b2 = b.drop_first();
        assert forall|x: int| a2.contains(x) <==> b2.contains(x) by {
            if a2.contains(x) {
                let p = choose|p: int| 0 <= p < a2.len() && a2[p] == x;
                assert(a[p + 1] == x);
                assert(ranks_before(probs, a[0], a[p + 1]));
                assert(b.contains(x));
                let q = choose|q: int| 0 <= q < b.len() && b[q] == x;
                assert(q != 0);
                assert(b2[q - 1] == x);
            }
            if b2.contains(x) {
                let q = choose|q: int| 0 <= q < b2.len() && b2[q] == x;
                assert(b[q + 1] == x);
                assert(ranks_before(probs, b[0], b[q + 1]));
                assert(a.contains(x));
                let p = choose|p: int| 0 <= p < a.len() && a[p] == x;
                assert(p != 0);
                assert(a2[p - 1] == x);
            }
        }
        assert forall|k: int, l: int| 0 <= k < l < a2.len() implies ranks_before(probs, #[trigger] a2[k], #[trigger] a2[l]) by {
            assert(a2[k] == a[k + 1] && a2[l] == a[l + 1]);
        }
        assert forall|k: int, l: int| 0 <= k < l < b2.len() implies ranks_before(probs, #[trigger] b2[k], #[trigger] b2[l]) by {
            assert(b2[k] == b[k + 1] && b2[l] == b[l + 1]);
        }
        lemma_sorted_unique(a2, b2, probs);
        assert(a =~= b) by {
            assert forall|k: int| 0 <= k < a.len() implies a[k] == b[k] by {
                if k > 0 {
                    assert(a[k] == a2[k - 1]);
                    assert(b[k] == b2[k - 1]);
                }
            }
        }
    }
}

/// A category's list is determined: two lists that are both the ranking of the same
/// category, registry, probabilities and threshold are equal.
pub proof fn lemma_ranking_unique(
    e1: Seq<(Seq<char>, u32)>,
    e2: Seq<(Seq<char>, u32)>,
    tags: Seq<TagView>,
    probs: Seq<u32>,
    category: TagCategory,
    t: u32,
)
    requires
        ranked_entries(e1, tags, probs, category, t),
        ranked_entries(e2, tags, probs, category, t),
    ensures
        e1 == e2,
{
    let a = choose|ids: Seq<int>| is_ranking(ids, tags, probs, category, t) && e1 == entries_of(ids, tags, probs);
    let b = choose|ids: Seq<int>| is_ranking(ids, tags, probs, category, t) && e2 == entries_of(ids, tags, probs);
    assert forall|x: int| a.contains(x) <==> b.contains(x) by {
        if a.contains(x) {
            let k = choose|k: int| 0 <= k < a.len() && a[k] == x;
            assert(in_scope(tags, probs, category, t, a[k]));
        }
        if b.contains(x) {
            let k = choose|k: int| 0 <= k < b.len() && b[k] == x;
            assert(in_scope(tags, probs, category, t, b[k]));
        }
    }
    lemma_sorted_unique(a, b, probs);
}

} // verus!
