//! The query executor: what has to be embedded for a query, and how the
//! similarities of the stored images become a ranking.
//!
//! Similarities are fixed-point numbers with thirty binary places:
//! `SCORE_UNIT` stands for a similarity of one. Scores are sums and
//! differences of them, computed without rounding.

use vstd::prelude::*;
use vstd::string::*;
use crate::ui::list::SearchEnum;

verus! {

/// The fixed-point value of a similarity of one.
pub const SCORE_UNIT: i32 = 1_073_741_824;

/// The number of results that a ranking is cut to.
pub const SEARCH_RESULTS: usize = 20;

/// The character that parts the two texts of a `Ranking` query.
pub const SEPARATOR: char = '-';

/// What the model has to embed before a query can be scored.
#[derive(Debug)]
pub enum QueryPlan {
    /// One text.
    Text(String),
    /// Two texts, embedded independently of each other.
    Contrast { positive: String, negative: String },
    /// The image at this path.
    Image(String),
}

/// Why a query produced no ranking.
#[derive(Debug)]
pub enum QueryError {
    /// A `Ranking` query that does not hold exactly one separator.
    MalformedQuery,
    /// The model could not embed the query; the text says why.
    Embedding(String),
    /// Another query is still under way.
    Busy,
}

/// Number of separators in a text.
pub open spec fn separator_count(text: Seq<char>) -> nat
    decreases text.len(),
{
    if text.len() == 0 {
        0
    } else {
        separator_count(text.drop_last()) + if text.last() == SEPARATOR { 1nat } else { 0nat }
    }
}

/// `text` is `positive`, one separator, and `negative`, and neither part
/// holds a separator.
pub open spec fn splits_into(text: Seq<char>, positive: Seq<char>, negative: Seq<char>) -> bool {
    &&& text == positive + seq![SEPARATOR] + negative
    &&& !positive.contains(SEPARATOR)
    &&& !negative.contains(SEPARATOR)
}

/// A text without a separator counts none.
pub proof fn lemma_no_separator(text: Seq<char>)
    ensures
        separator_count(text) == 0 <==> !text.contains(SEPARATOR),
    decreases text.len(),
{
    if text.len() > 0 {
        lemma_no_separator(text.drop_last());
        if text.drop_last().contains(SEPARATOR) {
            let i = choose|i: int| 0 <= i < text.drop_last().len() && text.drop_last()[i] == SEPARATOR;
            assert(text[i] == SEPARATOR);
        }
        if text.contains(SEPARATOR) && text.last() != SEPARATOR {
            let i = choose|i: int| 0 <= i < text.len() && text[i] == SEPARATOR;
            assert(text.drop_last()[i] == SEPARATOR);
        }
        if text.last() == SEPARATOR {
            assert(text[text.len() - 1] == SEPARATOR);
        }
    }
}

/// The separators of a text are those of its two halves.
pub proof fn lemma_separator_count_concat(a: Seq<char>, b: Seq<char>)
    ensures
        separator_count(a + b) == separator_count(a) + separator_count(b),
    decreases b.len(),
{
    if b.len() == 0 {
        assert(a + b =~= a);
    } else {
        lemma_separator_count_concat(a, b.drop_last());
        assert((a + b).drop_last() =~= a + b.drop_last());
    }
}

/// A text splits into two parts around a single separator exactly when it
/// holds one separator, and then in one way only.
pub proof fn lemma_split_unique(text: Seq<char>, positive: Seq<char>, negative: Seq<char>)
    requires
        splits_into(text, positive, negative),
    ensures
        separator_count(text) == 1,
        positive == text.subrange(0, positive.len() as int),
        negative == text.subrange(positive.len() as int + 1, text.len() as int),
        text[positive.len() as int] == SEPARATOR,
        forall|i: int| 0 <= i < text.len() && text[i] == SEPARATOR ==> i == positive.len(),
{
    lemma_separator_count_concat(positive + seq![SEPARATOR], negative);
    lemma_separator_count_concat(positive, seq![SEPARATOR]);
    lemma_no_separator(positive);
    lemma_no_separator(negative);
    assert(seq![SEPARATOR].drop_last() =~= Seq::<char>::empty());
    assert(separator_count(seq![SEPARATOR]) == 1) by {
        reveal_with_fuel(separator_count, 2);
    }
    assert(positive =~= text.subrange(0, positive.len() as int));
    assert(negative =~= text.subrange(positive.len() as int + 1, text.len() as int));
    assert forall|i: int| 0 <= i < text.len() && text[i] == SEPARATOR implies i
        == positive.len() by {
        if i < positive.len() {
            assert(positive[i] == SEPARATOR);
        } else if i > positive.len() {
            assert(negative[i - positive.len() - 1] == SEPARATOR);
        }
    }
}

/// `plan` is what a query in `mode` asks the model for.
///
/// `Search` and `NegativePrompt` embed the query as one text, `Image2Image`
/// embeds the image that it names. `Ranking` needs exactly one separator
/// and embeds the text before it and the text after it; any other number
/// of separators is a malformed query.
pub open spec fn is_plan(
    mode: SearchEnum,
    query: Seq<char>,
    plan: Result<QueryPlan, QueryError>,
) -> bool {
    match mode {
        SearchEnum::Search | SearchEnum::NegativePrompt => plan matches Ok(QueryPlan::Text(text))
            && text@ == query,
        SearchEnum::Image2Image => plan matches Ok(QueryPlan::Image(path)) && path@ == query,
        SearchEnum::Ranking => if separator_count(query) == 1 {
            plan matches Ok(QueryPlan::Contrast { positive, negative }) && splits_into(
                query,
                positive@,
                negative@,
            )
        } else {
            plan matches Err(QueryError::MalformedQuery)
        },
    }
}

/// What a query asks the model for, or why it asks for nothing.
pub fn plan_query(mode: SearchEnum, query: &str) -> (plan: Result<QueryPlan, QueryError>)
    ensures
        is_plan(mode, query@, plan),
{
    match mode {
        SearchEnum::Search | SearchEnum::NegativePrompt => Ok(QueryPlan::Text(query.to_owned())),
        SearchEnum::Image2Image => Ok(QueryPlan::Image(query.to_owned())),
        SearchEnum::Ranking => {
            let n = query.unicode_len();
            let mut count: usize = 0;
            let mut first: usize = 0;
            let mut i: usize = 0;
            while i < n
                invariant
                    i <= n,
                    n == query@.len(),
                    count == separator_count(query@.subrange(0, i as int)),
                    count <= i,
                    count == 0 ==> first == 0,
                    count > 0 ==> first < i && query@[first as int] == SEPARATOR
                        && !query@.subrange(0, first as int).contains(SEPARATOR),
                    count == 1 ==> !query@.subrange(first + 1, i as int).contains(SEPARATOR),
                decreases n - i,
            {
                let c = query.get_char(i);
                proof {
                    let before = query@.subrange(0, i as int);
                    let after = query@.subrange(0, i + 1);
                    assert(after.drop_last() =~= before);
                    assert(after.last() == c);
                    lemma_no_separator(before);
                    if count == 1 && c != SEPARATOR {
                        let tail = query@.subrange(first + 1, i + 1);
                        if tail.contains(SEPARATOR) {
                            let k = choose|k: int| 0 <= k < tail.len() && tail[k] == SEPARATOR;
                            assert(query@.subrange(first + 1, i as int)[k] == SEPARATOR);
                        }
                    }
                    if count == 0 && c == SEPARATOR {
                        assert(query@.subrange(i + 1, i + 1) =~= Seq::<char>::empty());
                    }
                }
                if c == SEPARATOR {
                    if count == 0 {
                        first = i;
                    }
                    count += 1;
                }
                i += 1;
            }
            assert(query@.subrange(0, n as int) =~= query@);
            if count == 1 {
                let positive = query.substring_char(0, first).to_owned();
                let negative = query.substring_char(first + 1, n).to_owned();
                assert(query@ =~= positive@ + seq![SEPARATOR] + negative@);
                Ok(QueryPlan::Contrast { positive, negative })
            } else {
                Err(QueryError::MalformedQuery)
            }
        },
    }
}

/// How one stored image compares to what the query embedded.
#[derive(Debug)]
pub struct Comparison {
    /// Identifier of the stored image.
    pub id: String,
    /// Similarity to the text or image of the query; for `Ranking`, to the
    /// text before the separator.
    pub primary: i32,
    /// For `Ranking`, similarity to the text after the separator; not read
    /// in the other modes.
    pub secondary: i32,
}

/// An image with the score that places it in the ranking.
#[derive(Debug)]
pub struct RankedResult {
    pub id: String,
    pub score: i64,
}

impl View for RankedResult {
    type V = (Seq<char>, int);

    open spec fn view(&self) -> (Seq<char>, int) {
        (self.id@, self.score as int)
    }
}

/// The results of a sequence, each as a plain pair of identifier and score.
pub open spec fn result_views(results: Seq<RankedResult>) -> Seq<(Seq<char>, int)> {
    Seq::new(results.len(), |i: int| results[i]@)
}

/// The score of an image: in `Ranking`, what speaks for it less what
/// speaks against it; in the other modes its similarity to the query.
pub open spec fn score_of(mode: SearchEnum, primary: int, secondary: int) -> int {
    if mode == SearchEnum::Ranking {
        primary - secondary
    } else {
        primary
    }
}

/// The scores of a sequence of comparisons, in its order.
pub open spec fn scored_views(mode: SearchEnum, comparisons: Seq<Comparison>) -> Seq<
    (Seq<char>, int),
> {
    Seq::new(
        comparisons.len(),
        |i: int|
            (comparisons[i].id@, score_of(mode, comparisons[i].primary as int, comparisons[i].secondary as int)),
    )
}

/// A result with score `a` has to come before one with score `b`:
/// `NegativePrompt` puts the lower score first, the other modes the higher.
pub open spec fn outranks(mode: SearchEnum, a: int, b: int) -> bool {
    if mode == SearchEnum::NegativePrompt {
        a < b
    } else {
        a > b
    }
}

/// `output` is `input` in the order of `mode`, results of equal score in
/// the order that they had in `input`.
///
/// `source[k]` is the place in `input` of the result at place `k` of
/// `output`, and `place[i]` the place in `output` of the result at place
/// `i` of `input`.
pub open spec fn is_ranking(
    mode: SearchEnum,
    input: Seq<(Seq<char>, int)>,
    output: Seq<(Seq<char>, int)>,
    source: Seq<int>,
    place: Seq<int>,
) -> bool {
    &&& output.len() == input.len()
    &&& source.len() == input.len()
    &&& place.len() == input.len()
    &&& forall|k: int|
        0 <= k < output.len() ==> 0 <= #[trigger] source[k] < input.len() && output[k]
            == input[source[k]]
    &&& forall|i: int|
        0 <= i < input.len() ==> 0 <= #[trigger] place[i] < output.len() && source[place[i]] == i
    &&& forall|j: int, k: int|
        0 <= j < k < output.len() ==> outranks(mode, (#[trigger] output[j]).1, (#[trigger] output[k]).1)
            || (output[j].1 == output[k].1 && source[j] < source[k])
}

/// `output` is the ranking of `input` in the order of `mode`.
pub open spec fn ranks(
    mode: SearchEnum,
    input: Seq<(Seq<char>, int)>,
    output: Seq<(Seq<char>, int)>,
) -> bool {
    exists|source: Seq<int>, place: Seq<int>| is_ranking(mode, input, output, source, place)
}

impl RankedResult {
    /// A copy of the result.
    pub fn duplicate(&self) -> (copy: RankedResult)
        ensures
            copy@ == self@,
    {
        RankedResult { id: self.id.clone(), score: self.score }
    }
}

/// The score of every image that was compared, in the order given.
pub fn score_all(mode: SearchEnum, comparisons: &Vec<Comparison>) -> (scored: Vec<RankedResult>)
    ensures
        result_views(scored@) == scored_views(mode, comparisons@),
{
    let mut scored: Vec<RankedResult> = Vec::new();
    let mut i: usize = 0;
    while i < comparisons.len()
        invariant
            i <= comparisons.len(),
            scored.len() == i,
            forall|k: int|
                0 <= k < i ==> (#[trigger] scored[k])@ == scored_views(mode, comparisons@)[k],
        decreases comparisons.len() - i,
    {
        let c = &comparisons[i];
        let score: i64 = match mode {
            SearchEnum::Ranking => c.primary as i64 - c.secondary as i64,
            _ => c.primary as i64,
        };
        scored.push(RankedResult { id: c.id.clone(), score });
        i += 1;
    }
    assert(result_views(scored@) =~= scored_views(mode, comparisons@));
    scored
}

/// Whether a result with score `a` has to come before one with score `b`.
fn comes_first(mode: SearchEnum, a: i64, b: i64) -> (r: bool)
    ensures
        r == outranks(mode, a as int, b as int),
{
    match mode {
        SearchEnum::NegativePrompt => a < b,
        _ => a > b,
    }
}

/// Places of the output after a new last input went to place `p`.
pub open spec fn inserted_source(source: Seq<int>, p: int) -> Seq<int> {
    source.insert(p, source.len() as int)
}

/// Places of the inputs after a new last input went to place `p`.
pub open spec fn inserted_place(place: Seq<int>, p: int) -> Seq<int> {
    Seq::new(
        place.len() + 1,
        |x: int|
            if x == place.len() {
                p
            } else if place[x] < p {
                place[x]
            } else {
                place[x] + 1
            },
    )
}

/// A ranking stays one when a further input is put behind every result
/// that it does not outrank and before the first that it outranks.
pub proof fn lemma_insert_keeps_ranking(
    mode: SearchEnum,
    input: Seq<(Seq<char>, int)>,
    output: Seq<(Seq<char>, int)>,
    source: Seq<int>,
    place: Seq<int>,
    item: (Seq<char>, int),
    p: int,
)
    requires
        is_ranking(mode, input, output, source, place),
        0 <= p <= output.len(),
        forall|j: int| 0 <= j < p ==> !outranks(mode, item.1, #[trigger] output[j].1),
        p < output.len() ==> outranks(mode, item.1, output[p].1),
    ensures
        is_ranking(
            mode,
            input.push(item),
            output.insert(p, item),
            inserted_source(source, p),
            inserted_place(place, p),
        ),
{
    let n = input.len() as int;
    let new_in = input.push(item);
    let new_out = output.insert(p, item);
    let new_source = inserted_source(source, p);
    let new_place = inserted_place(place, p);
    assert forall|k: int| 0 <= k < new_out.len() implies 0 <= #[trigger] new_source[k]
        < new_in.len() && new_out[k] == new_in[new_source[k]] by {
        if k < p {
            assert(new_source[k] == source[k]);
        } else if k > p {
            assert(new_source[k] == source[k - 1]);
        }
    }
    assert forall|x: int| 0 <= x < new_in.len() implies 0 <= #[trigger] new_place[x]
        < new_out.len() && new_source[new_place[x]] == x by {
        if x < n {
            assert(source[place[x]] == x);
        }
    }
    assert forall|j: int, k: int| 0 <= j < k < new_out.len() implies (outranks(
        mode,
        (#[trigger] new_out[j]).1,
        (#[trigger] new_out[k]).1,
    ) || (new_out[j].1 == new_out[k].1 && new_source[j] < new_source[k])) by {
        if j != p && k != p {
            let oj = if j < p { j } else { j - 1 };
            let ok = if k < p { k } else { k - 1 };
            assert(new_source[j] == source[oj] && new_source[k] == source[ok]);
            assert(new_out[j] == output[oj] && new_out[k] == output[ok]);
        } else if k == p {
            assert(new_source[j] == source[j]);
            assert(new_out[j] == output[j]);
            assert(0 <= source[j] < n);
        } else {
            assert(new_source[k] == source[k - 1]);
            assert(new_out[k] == output[k - 1]);
            assert(0 <= source[k - 1] < n);
            if k - 1 > p {
                assert(output[p] == output[p] && output[k - 1] == output[k - 1]);
            }
        }
    }
}

/// Orders the candidates for `mode`: by falling score, or by rising score
/// for `NegativePrompt`; candidates of equal score keep their order.
pub fn rank(mode: SearchEnum, candidates: &Vec<RankedResult>) -> (ranking: Vec<RankedResult>)
    ensures
        ranks(mode, result_views(candidates@), result_views(ranking@)),
{
    let mut ranking: Vec<RankedResult> = Vec::new();
    let ghost mut source: Seq<int> = Seq::empty();
    let ghost mut place: Seq<int> = Seq::empty();
    let ghost input = result_views(candidates@);
    let mut i: usize = 0;
    while i < candidates.len()
        invariant
            i <= candidates.len(),
            input == result_views(candidates@),
            ranking.len() == i,
            is_ranking(mode, input.subrange(0, i as int), result_views(ranking@), source, place),
        decreases candidates.len() - i,
    {
        let item = candidates[i].duplicate();
        let mut p: usize = 0;
        while p < i && !comes_first(mode, item.score, ranking[p].score)
            invariant
                p <= i,
                ranking.len() == i,
                forall|j: int|
                    0 <= j < p ==> !outranks(mode, item.score as int, (#[trigger] ranking[j]).score as int),
            decreases i - p,
        {
            p += 1;
        }
        let ghost old_out = result_views(ranking@);
        ranking.insert(p, item);
        proof {
            assert(result_views(ranking@) =~= old_out.insert(p as int, item@));
            assert(input.subrange(0, i + 1) =~= input.subrange(0, i as int).push(item@));
            assert forall|j: int| 0 <= j < p implies !outranks(mode, item@.1, #[trigger] old_out[j].1) by {
                assert(old_out[j] == ranking@[j]@);
            }
            if p < i {
                assert(old_out[p as int] == ranking@[p + 1]@);
            }
            lemma_insert_keeps_ranking(
                mode,
                input.subrange(0, i as int),
                old_out,
                source,
                place,
                item@,
                p as int,
            );
            source = inserted_source(source, p as int);
            place = inserted_place(place, p as int);
        }
        i += 1;
    }
    assert(input.subrange(0, i as int) =~= input);
    ranking
}

/// Scores the compared images and orders them for `mode`. No image is
/// left out, and none is compared: an empty store gives an empty ranking.
pub fn execute(mode: SearchEnum, comparisons: &Vec<Comparison>) -> (ranking: Vec<RankedResult>)
    ensures
        ranks(mode, scored_views(mode, comparisons@), result_views(ranking@)),
{
    let scored = score_all(mode, comparisons);
    rank(mode, &scored)
}

/// The first `limit` results of a ranking, or all of it where it is shorter.
pub fn window(ranking: Vec<RankedResult>, limit: usize) -> (top: Vec<RankedResult>)
    ensures
        result_views(top@) == result_views(ranking@).take(
            if limit <= ranking.len() { limit as int } else { ranking.len() as int },
        ),
{
    let mut top = ranking;
    top.truncate(limit);
    assert(result_views(top@) =~= result_views(ranking@).take(
        if limit <= ranking.len() { limit as int } else { ranking.len() as int },
    ));
    top
}

/// The results whose image could be decoded, in their order: result `i` is
/// kept where `decoded` has an entry for it and that entry is `true`.
pub open spec fn kept(results: Seq<(Seq<char>, int)>, decoded: Seq<bool>) -> Seq<(Seq<char>, int)>
    decreases results.len(),
{
    if results.len() == 0 {
        results
    } else {
        let i = results.len() - 1;
        let before = kept(results.drop_last(), decoded);
        if i < decoded.len() && decoded[i] {
            before.push(results.last())
        } else {
            before
        }
    }
}

/// Drops the results whose image could not be decoded. Nothing takes
/// their place, so fewer results than the window held may be left.
pub fn keep_decoded(results: &Vec<RankedResult>, decoded: &Vec<bool>) -> (shown: Vec<RankedResult>)
    ensures
        result_views(shown@) == kept(result_views(results@), decoded@),
{
    let mut shown: Vec<RankedResult> = Vec::new();
    let mut i: usize = 0;
    while i < results.len()
        invariant
            i <= results.len(),
            result_views(shown@) == kept(result_views(results@).take(i as int), decoded@),
        decreases results.len() - i,
    {
        let ghost before = result_views(shown@);
        proof {
            let all = result_views(results@);
            assert(all.take(i + 1).drop_last() =~= all.take(i as int));
        }
        if i < decoded.len() && decoded[i] {
            shown.push(results[i].duplicate());
            assert(result_views(shown@) =~= before.push(results[i as int]@));
        }
        i += 1;
    }
    assert(result_views(results@).take(i as int) =~= result_views(results@));
    shown
}

/// In a ranking a result never stands behind one that it outranks: the
/// scores fall from place to place, or rise for `NegativePrompt`, and of
/// two results with different scores the one with the better score comes
/// first.
pub proof fn lemma_ranking_order(
    mode: SearchEnum,
    input: Seq<(Seq<char>, int)>,
    output: Seq<(Seq<char>, int)>,
    j: int,
    k: int,
)
    requires
        ranks(mode, input, output),
        0 <= j < output.len(),
        0 <= k < output.len(),
    ensures
        j < k ==> (if mode == SearchEnum::NegativePrompt {
            output[j].1 <= output[k].1
        } else {
            output[j].1 >= output[k].1
        }),
        outranks(mode, output[j].1, output[k].1) ==> j < k,
{
    let (source, place) = choose|source: Seq<int>, place: Seq<int>|
        is_ranking(mode, input, output, source, place);
    if k < j {
        assert(outranks(mode, output[k].1, output[j].1) || output[k].1 == output[j].1);
    }
}

/// A ranking holds every candidate once: each place of the input has its
/// place in the output, and two places of the input never share one.
pub proof fn lemma_ranking_complete(
    mode: SearchEnum,
    input: Seq<(Seq<char>, int)>,
    output: Seq<(Seq<char>, int)>,
)
    requires
        ranks(mode, input, output),
    ensures
        output.len() == input.len(),
        output.to_multiset() == input.to_multiset(),
{
    let (source, place) = choose|source: Seq<int>, place: Seq<int>|
        is_ranking(mode, input, output, source, place);
    lemma_places_distinct(mode, input, output, source, place);
    lemma_permutation_multiset(input, output, source, place);
}

/// In a ranking no place of the input is the source of two places of the
/// output.
proof fn lemma_places_distinct(
    mode: SearchEnum,
    input: Seq<(Seq<char>, int)>,
    output: Seq<(Seq<char>, int)>,
    source: Seq<int>,
    place: Seq<int>,
)
    requires
        is_ranking(mode, input, output, source, place),
    ensures
        forall|j: int, k: int|
            0 <= j < output.len() && 0 <= k < output.len() && j != k ==> #[trigger] source[j]
                != #[trigger] source[k],
        forall|k: int| 0 <= k < output.len() ==> place[#[trigger] source[k]] == k,
{
    assert forall|j: int, k: int|
        0 <= j < output.len() && 0 <= k < output.len() && j != k implies #[trigger] source[j]
        != #[trigger] source[k] by {
        if j < k {
            assert(outranks(mode, output[j].1, output[k].1) || source[j] < source[k]);
            assert(output[j] == input[source[j]] && output[k] == input[source[k]]);
        } else {
            assert(outranks(mode, output[k].1, output[j].1) || source[k] < source[j]);
            assert(output[j] == input[source[j]] && output[k] == input[source[k]]);
        }
    }
    assert forall|k: int| 0 <= k < output.len() implies place[#[trigger] source[k]] == k by {
        let i = source[k];
        assert(source[place[i]] == i);
    }
}

/// Two sequences that a pair of inverse maps carries into each other hold
/// the same values the same number of times.
proof fn lemma_permutation_multiset(
    input: Seq<(Seq<char>, int)>,
    output: Seq<(Seq<char>, int)>,
    source: Seq<int>,
    place: Seq<int>,
)
    requires
        output.len() == input.len(),
        source.len() == input.len(),
        place.len() == input.len(),
        forall|k: int|
            0 <= k < output.len() ==> 0 <= #[trigger] source[k] < input.len() && output[k]
                == input[source[k]],
        forall|i: int|
            0 <= i < input.len() ==> 0 <= #[trigger] place[i] < output.len() && source[place[i]]
                == i,
        forall|k: int| 0 <= k < output.len() ==> place[#[trigger] source[k]] == k,
    ensures
        output.to_multiset() == input.to_multiset(),
    decreases input.len(),
{
    if input.len() == 0 {
        assert(output =~= input);
    } else {
        let n = input.len() - 1;
        let p = place[n];
        let input2 = input.drop_last();
        let output2 = output.remove(p);
        let source2 = source.remove(p);
        let place2 = Seq::new(n as nat, |x: int| if place[x] < p { place[x] } else { place[x] - 1 });
        assert forall|k: int| 0 <= k < output2.len() implies 0 <= #[trigger] source2[k]
            < input2.len() && output2[k] == input2[source2[k]] by {
            let k0 = if k < p { k } else { k + 1 };
            assert(source2[k] == source[k0]);
            assert(place[source[k0]] == k0);
        }
        assert forall|i: int| 0 <= i < input2.len() implies 0 <= #[trigger] place2[i]
            < output2.len() && source2[place2[i]] == i by {
            assert(source[place[i]] == i);
        }
        assert forall|k: int| 0 <= k < output2.len() implies place2[#[trigger] source2[k]]
            == k by {
            let k0 = if k < p { k } else { k + 1 };
            assert(source2[k] == source[k0]);
            assert(place[source[k0]] == k0);
        }
        lemma_permutation_multiset(input2, output2, source2, place2);
        assert(input =~= input2.push(input[n]));
        assert(output =~= output2.insert(p, input[n]));
        vstd::seq_lib::to_multiset_insert(output2, p, input[n]);
        vstd::seq_lib::to_multiset_build(input2, input[n]);
    }
}

/// Two rankings of the same candidates take them from the same places, up
/// to place `k`.
proof fn lemma_sources_agree(
    mode: SearchEnum,
    input: Seq<(Seq<char>, int)>,
    a: Seq<(Seq<char>, int)>,
    source_a: Seq<int>,
    place_a: Seq<int>,
    b: Seq<(Seq<char>, int)>,
    source_b: Seq<int>,
    place_b: Seq<int>,
    k: int,
)
    requires
        is_ranking(mode, input, a, source_a, place_a),
        is_ranking(mode, input, b, source_b, place_b),
        0 <= k <= input.len(),
    ensures
        forall|j: int| 0 <= j < k ==> #[trigger] source_a[j] == source_b[j],
    decreases k,
{
    if k > 0 {
        lemma_sources_agree(mode, input, a, source_a, place_a, b, source_b, place_b, k - 1);
        lemma_places_distinct(mode, input, a, source_a, place_a);
        lemma_places_distinct(mode, input, b, source_b, place_b);
        let x = source_a[k - 1];
        let y = source_b[k - 1];
        if x != y {
            let q = place_b[x];
            let r = place_a[y];
            assert(source_b[q] == x && source_a[r] == y);
            if q < k - 1 {
                assert(source_a[q] == source_b[q]);
            }
            if r < k - 1 {
                assert(source_a[r] == source_b[r]);
            }
            assert(k - 1 < q && k - 1 < r);
            assert(b[k - 1] == input[y] && b[q] == input[x]);
            assert(a[k - 1] == input[x] && a[r] == input[y]);
            assert(false);
        }
    }
}

/// The order of a mode leaves no choice: candidates have one ranking.
pub proof fn lemma_ranking_unique(
    mode: SearchEnum,
    input: Seq<(Seq<char>, int)>,
    a: Seq<(Seq<char>, int)>,
    b: Seq<(Seq<char>, int)>,
)
    requires
        ranks(mode, input, a),
        ranks(mode, input, b),
    ensures
        a == b,
{
    let (source_a, place_a) = choose|source: Seq<int>, place: Seq<int>|
        is_ranking(mode, input, a, source, place);
    let (source_b, place_b) = choose|source: Seq<int>, place: Seq<int>|
        is_ranking(mode, input, b, source, place);
    lemma_sources_agree(
        mode,
        input,
        a,
        source_a,
        place_a,
        b,
        source_b,
        place_b,
        input.len() as int,
    );
    assert forall|k: int| 0 <= k < a.len() implies a[k] == b[k] by {
        assert(source_a[k] == source_b[k]);
    }
    assert(a =~= b);
}

} // verus!
