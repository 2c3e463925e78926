//! Content negotiation: what an `Accept` header asks for, and which of the
//! representations on offer answers it best.
//!
//! A header is a list of ranges, separated by commas. Each range may carry a
//! weight, `;q=` and a decimal number; a range without one weighs 1. Weights
//! are held exactly, in units of a billionth.

use vstd::prelude::*;
use vstd::string::{StrSliceExecFns, StringExecFns};
use crate::media::{mime_parse, MediaType, MediaTypeView};
use crate::text::{
    chars_of, decimal_value, digits_only, eq_ignoring_case, find_blank, find_blank_from,
    find_char, find_char_from, lemma_decimal_value_bound, lemma_find_char_bounds,
    lemma_pow10_values, pow10, read_digits,
    same_ignoring_case, skip_blanks, skip_blanks_from, slice_of, trim_end, trim_end_at,
};

verus! {

/// Why a negotiation found nothing.
#[derive(Debug, Clone, Copy, PartialEq, Eq, Structural)]
pub enum Error {
    /// The header does not follow the grammar.
    ParseError,
    /// The header is well formed, and nothing on offer answers it.
    NotProvided,
}

/// The weight of a range that names none: 1.
pub const FULL_WEIGHT: u64 = 1_000_000_000;

/// The weight that a text denotes, in units of a billionth: a decimal
/// number of up to nine digits before the point and up to nine after it.
/// The point may be left out, and so may the digits on one side of it.
pub open spec fn weight_of(t: Seq<char>) -> Option<nat> {
    let dot = find_char(t, '.', 0);
    let whole = t.subrange(0, dot);
    let part = if dot < t.len() {
        t.subrange(dot + 1, t.len() as int)
    } else {
        Seq::empty()
    };
    if whole.len() > 9 || part.len() > 9 || whole.len() + part.len() == 0 {
        None
    } else if !digits_only(whole) || !digits_only(part) {
        None
    } else {
        Some(
            decimal_value(whole, whole.len() as int) * 1_000_000_000 + decimal_value(
                part,
                part.len() as int,
            ) * pow10((9 - part.len()) as nat),
        )
    }
}

/// One element of the list, taken apart: the text of its range, and its
/// weight. Blanks around the range and around the weight
/// are skipped; after the semicolon nothing but `q=` and a weight may stand.
pub open spec fn entry_of(e: Seq<char>) -> Option<(Seq<char>, nat)> {
    let a = skip_blanks(e, 0);
    let semi = find_char(e, ';', a);
    let b = trim_end(e, a, semi);
    if a >= b {
        None
    } else if semi >= e.len() {
        Some((e.subrange(a, b), 1_000_000_000))
    } else {
        let p = skip_blanks(e, semi + 1);
        if !(p + 2 <= e.len() && e[p] == 'q' && e[p + 1] == '=') {
            None
        } else {
            let w = find_blank(e, p + 2);
            if skip_blanks(e, w) != e.len() {
                None
            } else {
                match weight_of(e.subrange(p + 2, w)) {
                    Some(q) => Some((e.subrange(a, b), q)),
                    None => None,
                }
            }
        }
    }
}

/// The elements of a list: what stands between the separators, from index
/// `from` on. A text without a separator is one element.
pub open spec fn pieces(s: Seq<char>, sep: char, from: int) -> Seq<Seq<char>>
    decreases s.len() - from,
{
    let end = find_char(s, sep, from);
    if 0 <= from <= s.len() && end < s.len() {
        proof {
            lemma_find_char_bounds(s, sep, from);
        }
        seq![s.subrange(from, end)] + pieces(s, sep, end + 1)
    } else {
        seq![s.subrange(from, s.len() as int)]
    }
}

/// The power of ten by which the digits after the point are scaled.
fn scale(k: usize) -> (r: u64)
    requires
        k <= 9,
    ensures
        r == pow10(k as nat),
{
    proof {
        lemma_pow10_values();
    }
    if k == 0 {
        1
    } else if k == 1 {
        10
    } else if k == 2 {
        100
    } else if k == 3 {
        1_000
    } else if k == 4 {
        10_000
    } else if k == 5 {
        100_000
    } else if k == 6 {
        1_000_000
    } else if k == 7 {
        10_000_000
    } else if k == 8 {
        100_000_000
    } else {
        1_000_000_000
    }
}

/// Reads a weight; `None` where the text is none.
pub fn parse_weight(t: &Vec<char>) -> (r: Option<u64>)
    ensures
        match r {
            Some(q) => weight_of(t@) == Some(q as nat),
            None => weight_of(t@) is None,
        },
{
    let n = t.len();
    let dot = find_char_from(t, '.', 0);
    let after: usize = if dot < n {
        n - dot - 1
    } else {
        0
    };
    if dot > 9 || after > 9 || dot + after == 0 {
        return None;
    }
    let ghost whole_text = t@.subrange(0, dot as int);
    let ghost part_text = if dot < n {
        t@.subrange(dot as int + 1, n as int)
    } else {
        Seq::<char>::empty()
    };
    proof {
        lemma_pow10_values();
        lemma_decimal_value_bound(whole_text, dot as int);
        lemma_decimal_value_bound(part_text, after as int);
    }
    let whole = match read_digits(t, 0, dot) {
        Some(v) => v,
        None => {
            return None;
        },
    };
    let from: usize = if dot < n {
        dot + 1
    } else {
        n
    };
    assert(t@.subrange(from as int, n as int) =~= part_text);
    let part = match read_digits(t, from, n) {
        Some(v) => v,
        None => {
            return None;
        },
    };
    let factor = scale(9 - after);
    proof {
        assert(part < pow10(after as nat));
        if after == 0 {
            lemma_scaled_below(part as nat, 1, factor as nat);
        } else if after == 1 {
            lemma_scaled_below(part as nat, 10, factor as nat);
        } else if after == 2 {
            lemma_scaled_below(part as nat, 100, factor as nat);
        } else if after == 3 {
            lemma_scaled_below(part as nat, 1_000, factor as nat);
        } else if after == 4 {
            lemma_scaled_below(part as nat, 10_000, factor as nat);
        } else if after == 5 {
            lemma_scaled_below(part as nat, 100_000, factor as nat);
        } else if after == 6 {
            lemma_scaled_below(part as nat, 1_000_000, factor as nat);
        } else if after == 7 {
            lemma_scaled_below(part as nat, 10_000_000, factor as nat);
        } else if after == 8 {
            lemma_scaled_below(part as nat, 100_000_000, factor as nat);
        } else {
            lemma_scaled_below(part as nat, 1_000_000_000, factor as nat);
        }
        assert(whole < 1_000_000_000);
    }
    Some(whole * 1_000_000_000 + part * factor)
}

/// A number below a power of ten, times the power of ten that makes a
/// billion of it, is below a billion.
proof fn lemma_scaled_below(part: nat, bound: nat, factor: nat)
    requires
        part < bound,
        bound * factor == 1_000_000_000,
    ensures
        part * factor < 1_000_000_000,
{
    assert(part * factor < bound * factor) by (nonlinear_arith)
        requires
            part < bound,
            bound * factor == 1_000_000_000,
    ;
}

/// Takes one element of the list apart: where its range stands in `e`, and
/// its weight.
pub fn parse_entry(e: &Vec<char>) -> (r: Option<(usize, usize, u64)>)
    ensures
        match r {
            Some((a, b, q)) => a < b <= e.len() && entry_of(e@) == Some(
                (e@.subrange(a as int, b as int), q as nat),
            ),
            None => entry_of(e@) is None,
        },
{
    let a = skip_blanks_from(e, 0);
    let semi = find_char_from(e, ';', a);
    let b = trim_end_at(e, a, semi);
    if a >= b {
        return None;
    }
    if semi >= e.len() {
        return Some((a, b, FULL_WEIGHT));
    }
    let p = skip_blanks_from(e, semi + 1);
    if !(p < e.len() && e.len() - p >= 2 && e[p] == 'q' && e[p + 1] == '=') {
        return None;
    }
    let w = find_blank_from(e, p + 2);
    if skip_blanks_from(e, w) != e.len() {
        return None;
    }
    let token = slice_of(e, p + 2, w);
    match parse_weight(&token) {
        Some(q) => Some((a, b, q)),
        None => None,
    }
}

/// What a range of the header has found on offer: which offer, and how
/// closely it fits (0 is closest).
pub struct Offer {
    pub index: int,
    pub level: nat,
}

/// A range of the header, reduced to what the choice depends on: its best
/// offer, if it has any, and its weight.
pub struct Bid {
    pub offer: Option<Offer>,
    pub weight: nat,
}

/// A bid takes part in the choice if it found an offer and weighs more
/// than nothing.
pub open spec fn eligible(b: Bid) -> bool {
    b.offer is Some && b.weight > 0
}

/// `a` is strictly preferred to `b`: it weighs more, or it weighs the same
/// and fits more closely.
pub open spec fn outranks(a: Bid, b: Bid) -> bool {
    a.weight > b.weight || (a.weight == b.weight && a.offer->0.level < b.offer->0.level)
}

/// The position of the winning bid among the first `n`: the first of those
/// that no eligible bid outranks.
pub open spec fn winner(bids: Seq<Bid>, n: int) -> Option<int>
    decreases n,
{
    if n <= 0 {
        None
    } else {
        let before = winner(bids, n - 1);
        let last = bids[n - 1];
        if !eligible(last) {
            before
        } else {
            match before {
                Some(k) => if outranks(last, bids[k]) {
                    Some(n - 1)
                } else {
                    before
                },
                None => Some(n - 1),
            }
        }
    }
}

/// The winner is eligible, no eligible bid outranks it, and it outranks
/// every eligible bid that stands before it. Where there is no winner, no
/// bid is eligible.
pub proof fn lemma_winner_is_best(bids: Seq<Bid>, n: int)
    requires
        0 <= n <= bids.len(),
    ensures
        match winner(bids, n) {
            Some(k) => {
                &&& 0 <= k < n
                &&& eligible(bids[k])
                &&& forall|j: int|
                    0 <= j < n && eligible(#[trigger] bids[j]) ==> !outranks(bids[j], bids[k])
                &&& forall|j: int|
                    0 <= j < k && eligible(#[trigger] bids[j]) ==> outranks(bids[k], bids[j])
            },
            None => forall|j: int| 0 <= j < n ==> !eligible(#[trigger] bids[j]),
        },
    decreases n,
{
    if n > 0 {
        lemma_winner_is_best(bids, n - 1);
    }
}

/// How closely an offer fits a range: 0 where type and subtype are the
/// same, 1 where the type is the same and the range's subtype is `*`, 2
/// where the range is `*/*`; `None` where it does not fit.
pub open spec fn specificity(range: MediaTypeView, offered: MediaTypeView) -> Option<nat> {
    if range == offered {
        Some(0)
    } else if range.type_ == offered.type_ && range.subtype == seq!['*'] && range.suffix is None {
        Some(1)
    } else if range.type_ == seq!['*'] && range.subtype == seq!['*'] && range.suffix is None {
        Some(2)
    } else {
        None
    }
}

/// The closest of the first `n` fits, and of equally close ones the first.
/// `levels[j]` says how closely offer `j` fits, if it does.
pub open spec fn closest(levels: Seq<Option<nat>>, n: int) -> Option<Offer>
    decreases n,
{
    if n <= 0 {
        None
    } else {
        let before = closest(levels, n - 1);
        match levels[n - 1] {
            None => before,
            Some(level) => match before {
                Some(o) => if level < o.level {
                    Some(Offer { index: n - 1, level })
                } else {
                    before
                },
                None => Some(Offer { index: n - 1, level }),
            },
        }
    }
}

/// The closest offer fits, nothing fits more closely, and what stands
/// before it fits less closely. Where there is none, nothing fits.
pub proof fn lemma_closest_is_closest(levels: Seq<Option<nat>>, n: int)
    requires
        0 <= n <= levels.len(),
    ensures
        match closest(levels, n) {
            Some(o) => {
                &&& 0 <= o.index < n
                &&& levels[o.index] == Some(o.level)
                &&& forall|j: int|
                    0 <= j < n ==> (match #[trigger] levels[j] {
                        Some(l) => o.level <= l && (j < o.index ==> o.level < l),
                        None => true,
                    })
            },
            None => forall|j: int| 0 <= j < n ==> #[trigger] levels[j] is None,
        },
    decreases n,
{
    if n > 0 {
        lemma_closest_is_closest(levels, n - 1);
    }
}

/// How closely each of the media types provided fits a range.
pub open spec fn media_levels(range: MediaTypeView, provided: Seq<MediaTypeView>) -> Seq<
    Option<nat>,
> {
    Seq::new(provided.len(), |j: int| specificity(range, provided[j]))
}

/// The best of the media types provided for a range.
pub open spec fn best_offer(range: MediaTypeView, provided: Seq<MediaTypeView>) -> Option<Offer> {
    closest(media_levels(range, provided), provided.len() as int)
}

/// The views of the media types on offer.
pub open spec fn media_views(provided: Seq<MediaType>) -> Seq<MediaTypeView> {
    provided.map_values(|m: MediaType| m@)
}

/// A range of an `Accept` header: a media range and its weight in units
/// of a billionth.
#[derive(Debug)]
pub struct MediaRange {
    pub media: MediaType,
    pub weight: u64,
}

/// What a media range is in contracts.
pub struct MediaRangeView {
    pub media: MediaTypeView,
    pub weight: nat,
}

impl View for MediaRange {
    type V = MediaRangeView;

    open spec fn view(&self) -> MediaRangeView {
        MediaRangeView { media: self.media@, weight: self.weight as nat }
    }
}

/// The views of the ranges of a header.
pub open spec fn range_views(ranges: Seq<MediaRange>) -> Seq<MediaRangeView> {
    ranges.map_values(|r: MediaRange| r@)
}

/// The range that one element of an `Accept` header denotes: its text is
/// taken apart by `entry_of`, and the range's text is read as a media type.
pub open spec fn range_of(piece: Seq<char>) -> Option<MediaRangeView> {
    match entry_of(piece) {
        Some((text, weight)) => match mime_parse(text) {
            Some(media) => Some(MediaRangeView { media, weight }),
            None => None,
        },
        None => None,
    }
}

/// The ranges of an `Accept` header in the order in which they stand, or
/// `None` where one of its elements denotes none.
pub open spec fn accept_ranges(header: Seq<char>) -> Option<Seq<MediaRangeView>> {
    let ps = pieces(header, ',', 0);
    if forall|i: int| 0 <= i < ps.len() ==> range_of(#[trigger] ps[i]) is Some {
        Some(Seq::new(ps.len(), |i: int| range_of(ps[i])->0))
    } else {
        None
    }
}

/// The bids that the ranges of a header make on what is offered.
pub open spec fn media_bids(provided: Seq<MediaTypeView>, ranges: Seq<MediaRangeView>) -> Seq<Bid> {
    Seq::new(
        ranges.len(),
        |k: int|
            Bid {
                offer: best_offer(ranges[k].media, provided),
                weight: ranges[k].weight,
            },
    )
}

/// The offer that the ranges select: the best offer of the winning range.
pub open spec fn media_pick(provided: Seq<MediaTypeView>, ranges: Seq<MediaRangeView>) -> Option<
    int,
> {
    let bids = media_bids(provided, ranges);
    match winner(bids, bids.len() as int) {
        Some(k) => Some(bids[k].offer->0.index),
        None => None,
    }
}

/// What the ranges select is there and acceptable: one of the ranges
/// weighs more than nothing and fits it, and of the offers that fit that
/// range none fits more closely. Where the ranges select nothing, no range
/// that weighs more than nothing fits any offer.
pub proof fn lemma_pick_is_acceptable(provided: Seq<MediaTypeView>, ranges: Seq<MediaRangeView>)
    ensures
        match media_pick(provided, ranges) {
            Some(i) => 0 <= i < provided.len() && exists|k: int|
                {
                    &&& 0 <= k < ranges.len()
                    &&& (#[trigger] ranges[k]).weight > 0
                    &&& specificity(ranges[k].media, provided[i]) is Some
                    &&& forall|j: int|
                        0 <= j < provided.len() ==> (match specificity(
                            ranges[k].media,
                            #[trigger] provided[j],
                        ) {
                            Some(l) => specificity(ranges[k].media, provided[i])->0 <= l,
                            None => true,
                        })
                },
            None => forall|k: int, j: int|
                0 <= k < ranges.len() && 0 <= j < provided.len() && (#[trigger] ranges[k]).weight
                    > 0 ==> specificity(ranges[k].media, #[trigger] provided[j]) is None,
        },
{
    let bids = media_bids(provided, ranges);
    lemma_winner_is_best(bids, bids.len() as int);
    match winner(bids, bids.len() as int) {
        Some(k) => {
            let levels = media_levels(ranges[k].media, provided);
            lemma_closest_is_closest(levels, provided.len() as int);
            let i = bids[k].offer->0.index;
            assert(levels[i] == specificity(ranges[k].media, provided[i]));
            assert forall|j: int| 0 <= j < provided.len() implies (match specificity(
                ranges[k].media,
                #[trigger] provided[j],
            ) {
                Some(l) => specificity(ranges[k].media, provided[i])->0 <= l,
                None => true,
            }) by {
                assert(levels[j] == specificity(ranges[k].media, provided[j]));
            }
            assert(ranges[k].weight > 0);
        },
        None => {
            assert forall|k: int, j: int|
                0 <= k < ranges.len() && 0 <= j < provided.len() && (#[trigger] ranges[k]).weight
                    > 0 implies specificity(ranges[k].media, #[trigger] provided[j]) is None by {
                let levels = media_levels(ranges[k].media, provided);
                lemma_closest_is_closest(levels, provided.len() as int);
                assert(!eligible(bids[k]));
                assert(levels[j] == specificity(ranges[k].media, provided[j]));
            }
        },
    }
}

/// The index of the media type that an `Accept` header selects among those
/// provided, or why it selects none.
pub open spec fn media_choice(provided: Seq<MediaTypeView>, header: Seq<char>) -> Result<
    int,
    Error,
> {
    match accept_ranges(header) {
        None => Err(Error::ParseError),
        Some(ranges) => match media_pick(provided, ranges) {
            Some(i) => Ok(i),
            None => Err(Error::NotProvided),
        },
    }
}

/// How closely `offered` fits `range`, if it does.
pub fn fit(range: &MediaType, offered: &MediaType) -> (r: Option<u8>)
    ensures
        match r {
            Some(l) => specificity(range@, offered@) == Some(l as nat),
            None => specificity(range@, offered@) is None,
        },
{
    if range.same(offered) {
        Some(0)
    } else if range.same_type(offered) && range.any_subtype() {
        Some(1)
    } else if range.any_type() {
        Some(2)
    } else {
        None
    }
}

/// Finds for a range the best of the media types provided: its index and
/// how closely it fits.
pub fn mime_type_provided(mime_type: &MediaType, provided: &[MediaType]) -> (r: Option<(usize, u8)>)
    ensures
        match r {
            Some((index, level)) => best_offer(mime_type@, media_views(provided@)) == Some(
                Offer { index: index as int, level: level as nat },
            ) && index < provided.len(),
            None => best_offer(mime_type@, media_views(provided@)) is None,
        },
{
    let ghost levels = media_levels(mime_type@, media_views(provided@));
    let mut best: Option<(usize, u8)> = None;
    let mut i: usize = 0;
    while i < provided.len()
        invariant
            i <= provided.len(),
            levels == media_levels(mime_type@, media_views(provided@)),
            match best {
                Some((index, level)) => closest(levels, i as int) == Some(
                    Offer { index: index as int, level: level as nat },
                ) && index < i,
                None => closest(levels, i as int) is None,
            },
        decreases provided.len() - i,
    {
        assert(levels[i as int] == specificity(mime_type@, provided@[i as int]@));
        match fit(mime_type, &provided[i]) {
            None => {},
            Some(level) => {
                match best {
                    Some((_, held)) => {
                        if level < held {
                            best = Some((i, level));
                        }
                    },
                    None => {
                        best = Some((i, level));
                    },
                }
            },
        }
        i += 1;
    }
    best
}

/// Reads an `Accept` header into its ranges, in the order in which they
/// stand. A header that is not one fails with `Error::ParseError`.
pub fn parse_accept(header: &str) -> (r: Result<Vec<MediaRange>, Error>)
    ensures
        match r {
            Ok(ranges) => accept_ranges(header@) == Some(range_views(ranges@)),
            Err(e) => e == Error::ParseError && accept_ranges(header@) is None,
        },
{
    let chars = chars_of(header);
    let n = chars.len();
    let mut out: Vec<MediaRange> = Vec::new();
    let mut start: usize = 0;
    let ghost all = pieces(header@, ',', 0);
    let ghost mut done: Seq<Seq<char>> = Seq::empty();
    loop
        invariant
            chars@ == header@,
            n == chars.len(),
            start <= n,
            all == pieces(header@, ',', 0),
            all == done + pieces(header@, ',', start as int),
            out.len() == done.len(),
            forall|i: int| 0 <= i < done.len() ==> range_of(#[trigger] done[i]) == Some(out@[i]@),
        decreases n - start,
    {
        let end = find_char_from(&chars, ',', start);
        let piece = slice_of(&chars, start, end);
        let ghost rest = pieces(header@, ',', start as int);
        assert(rest[0] == piece@);
        assert(all[done.len() as int] == piece@);
        let entry = parse_entry(&piece);
        let (a, b, weight) = match entry {
            Some(e) => e,
            None => {
                return Err(Error::ParseError);
            },
        };
        let text = header.substring_char(start + a, start + b);
        assert(text@ =~= piece@.subrange(a as int, b as int));
        let media = match MediaType::parse(text) {
            Some(m) => m,
            None => {
                return Err(Error::ParseError);
            },
        };
        out.push(MediaRange { media, weight });
        proof {
            done = done.push(piece@);
        }
        if end >= n {
            assert(rest =~= seq![piece@]);
            assert(all =~= done);
            assert(range_views(out@) =~= Seq::new(all.len(), |i: int| range_of(all[i])->0));
            return Ok(out);
        }
        assert(rest =~= seq![piece@] + pieces(header@, ',', end as int + 1));
        assert(all =~= done + pieces(header@, ',', end as int + 1));
        start = end + 1;
    }
}

/// Chooses among the media types provided the one that the ranges of a
/// header select.
pub fn select_media(provided: &[MediaType], ranges: &Vec<MediaRange>) -> (r: Option<usize>)
    ensures
        match r {
            Some(i) => i < provided.len() && media_pick(
                media_views(provided@),
                range_views(ranges@),
            ) == Some(i as int),
            None => media_pick(media_views(provided@), range_views(ranges@)) is None,
        },
{
    let ghost offers = media_views(provided@);
    let ghost asked = range_views(ranges@);
    let ghost bids = media_bids(offers, asked);
    // The winning bid so far: its position, the offer it found, its level and weight.
    let mut best: Option<(usize, usize, u8, u64)> = None;
    let mut k: usize = 0;
    while k < ranges.len()
        invariant
            k <= ranges.len(),
            offers == media_views(provided@),
            asked == range_views(ranges@),
            bids == media_bids(offers, asked),
            bids.len() == ranges.len(),
            match best {
                Some((at, index, level, weight)) => {
                    &&& winner(bids, k as int) == Some(at as int)
                    &&& at < k
                    &&& bids[at as int] == Bid {
                        offer: Some(Offer { index: index as int, level: level as nat }),
                        weight: weight as nat,
                    }
                    &&& index < provided.len()
                },
                None => winner(bids, k as int) is None,
            },
        decreases ranges.len() - k,
    {
        let range = &ranges[k];
        assert(asked[k as int] == ranges@[k as int]@);
        let found = mime_type_provided(&range.media, provided);
        assert(bids[k as int].offer == best_offer(range.media@, offers));
        assert(bids[k as int].weight == range.weight as nat);
        match found {
            Some((index, level)) => {
                if range.weight > 0 {
                    let better = match best {
                        Some((_, _, held_level, held_weight)) => range.weight > held_weight || (
                        range.weight == held_weight && level < held_level),
                        None => true,
                    };
                    if better {
                        best = Some((k, index, level, range.weight));
                    }
                }
            },
            None => {},
        }
        k += 1;
    }
    match best {
        Some((_, index, _, _)) => Some(index),
        None => None,
    }
}

/// Picks the media type that an `Accept` header asks for among those
/// provided: the range with the highest weight wins, of equally heavy ones
/// the one that fits its offer most closely, of those the first; a range of
/// weight 0 never wins.
///
/// Fails with `Error::ParseError` where the header is not well formed, and
/// with `Error::NotProvided` where it is and no range wins.
pub fn choose_mediatype<'a>(provided: &'a [MediaType], header: &str) -> (r: Result<
    &'a MediaType,
    Error,
>)
    ensures
        match media_choice(media_views(provided@), header@) {
            Ok(i) => 0 <= i < provided.len() && r == Ok::<&MediaType, Error>(&provided@[i]),
            Err(e) => r == Err::<&MediaType, Error>(e),
        },
{
    match parse_accept(header) {
        Err(e) => Err(e),
        Ok(ranges) => match select_media(provided, &ranges) {
            Some(i) => Ok(&provided[i]),
            None => Err(Error::NotProvided),
        },
    }
}

/// Negotiation is a function of what is provided and of the header: equal
/// inputs select the same.
pub proof fn lemma_choice_is_repeatable(
    provided: Seq<MediaType>,
    header: Seq<char>,
    again_provided: Seq<MediaType>,
    again_header: Seq<char>,
)
    requires
        media_views(provided) == media_views(again_provided),
        header == again_header,
    ensures
        media_choice(media_views(provided), header) == media_choice(
            media_views(again_provided),
            again_header,
        ),
{
}

/// A range of an `Accept-Charset`, `Accept-Language` or `Accept-Encoding`
/// header: a name, or `*`, and its weight in units of a billionth.
#[derive(Debug)]
pub struct TokenRange {
    pub token: String,
    pub weight: u64,
}

/// What a token range is in contracts.
pub struct TokenRangeView {
    pub token: Seq<char>,
    pub weight: nat,
}

impl View for TokenRange {
    type V = TokenRangeView;

    open spec fn view(&self) -> TokenRangeView {
        TokenRangeView { token: self.token@, weight: self.weight as nat }
    }
}

/// The views of the ranges of a header of names.
pub open spec fn token_range_views(ranges: Seq<TokenRange>) -> Seq<TokenRangeView> {
    ranges.map_values(|r: TokenRange| r@)
}

/// The texts of the names on offer.
pub open spec fn texts(provided: Seq<String>) -> Seq<Seq<char>> {
    provided.map_values(|s: String| s@)
}

/// The range that one element of a header of names denotes.
pub open spec fn token_range_of(piece: Seq<char>) -> Option<TokenRangeView> {
    match entry_of(piece) {
        Some((token, weight)) => Some(TokenRangeView { token, weight }),
        None => None,
    }
}

/// The ranges of a header of names in the order in which they stand, or
/// `None` where one of its elements denotes none.
pub open spec fn token_ranges(header: Seq<char>) -> Option<Seq<TokenRangeView>> {
    let ps = pieces(header, ',', 0);
    if forall|i: int| 0 <= i < ps.len() ==> token_range_of(#[trigger] ps[i]) is Some {
        Some(Seq::new(ps.len(), |i: int| token_range_of(ps[i])->0))
    } else {
        None
    }
}

/// How closely a name on offer fits a range: 0 where they are the same up
/// to letter case, 1 where the range is `*`; `None` where it does not fit.
pub open spec fn token_fit(range: Seq<char>, offered: Seq<char>) -> Option<nat> {
    if same_ignoring_case(range, offered) {
        Some(0)
    } else if range == seq!['*'] {
        Some(1)
    } else {
        None
    }
}

/// How closely each of the names provided fits a range.
pub open spec fn token_levels(range: Seq<char>, provided: Seq<Seq<char>>) -> Seq<Option<nat>> {
    Seq::new(provided.len(), |j: int| token_fit(range, provided[j]))
}

/// The bids that the ranges of a header make on the names offered.
pub open spec fn token_bids(provided: Seq<Seq<char>>, ranges: Seq<TokenRangeView>) -> Seq<Bid> {
    Seq::new(
        ranges.len(),
        |k: int|
            Bid {
                offer: closest(token_levels(ranges[k].token, provided), provided.len() as int),
                weight: ranges[k].weight,
            },
    )
}

/// The name that the ranges select: the best offer of the winning range.
pub open spec fn token_pick(provided: Seq<Seq<char>>, ranges: Seq<TokenRangeView>) -> Option<int> {
    let bids = token_bids(provided, ranges);
    match winner(bids, bids.len() as int) {
        Some(k) => Some(bids[k].offer->0.index),
        None => None,
    }
}

/// The index of the name that a header selects among those provided, or why
/// it selects none.
pub open spec fn token_choice(provided: Seq<Seq<char>>, header: Seq<char>) -> Result<int, Error> {
    match token_ranges(header) {
        None => Err(Error::ParseError),
        Some(ranges) => match token_pick(provided, ranges) {
            Some(i) => Ok(i),
            None => Err(Error::NotProvided),
        },
    }
}

/// Reads a header of names into its ranges, in the order in which they
/// stand. A header that is not one fails with `Error::ParseError`.
pub fn parse_tokens(header: &str) -> (r: Result<Vec<TokenRange>, Error>)
    ensures
        match r {
            Ok(ranges) => token_ranges(header@) == Some(token_range_views(ranges@)),
            Err(e) => e == Error::ParseError && token_ranges(header@) is None,
        },
{
    let chars = chars_of(header);
    let n = chars.len();
    let mut out: Vec<TokenRange> = Vec::new();
    let mut start: usize = 0;
    let ghost all = pieces(header@, ',', 0);
    let ghost mut done: Seq<Seq<char>> = Seq::empty();
    loop
        invariant
            chars@ == header@,
            n == chars.len(),
            start <= n,
            all == pieces(header@, ',', 0),
            all == done + pieces(header@, ',', start as int),
            out.len() == done.len(),
            forall|i: int|
                0 <= i < done.len() ==> token_range_of(#[trigger] done[i]) == Some(out@[i]@),
        decreases n - start,
    {
        let end = find_char_from(&chars, ',', start);
        let piece = slice_of(&chars, start, end);
        let ghost rest = pieces(header@, ',', start as int);
        assert(rest[0] == piece@);
        assert(all[done.len() as int] == piece@);
        let entry = parse_entry(&piece);
        let (a, b, weight) = match entry {
            Some(e) => e,
            None => {
                return Err(Error::ParseError);
            },
        };
        let text = header.substring_char(start + a, start + b);
        assert(text@ =~= piece@.subrange(a as int, b as int));
        out.push(TokenRange { token: String::from_str(text), weight });
        proof {
            done = done.push(piece@);
        }
        if end >= n {
            assert(rest =~= seq![piece@]);
            assert(all =~= done);
            assert(token_range_views(out@) =~= Seq::new(
                all.len(),
                |i: int| token_range_of(all[i])->0,
            ));
            return Ok(out);
        }
        assert(rest =~= seq![piece@] + pieces(header@, ',', end as int + 1));
        assert(all =~= done + pieces(header@, ',', end as int + 1));
        start = end + 1;
    }
}

/// How closely the name `offered` fits `range`, if it does.
pub fn fit_token(range: &str, offered: &str) -> (r: Option<u8>)
    ensures
        match r {
            Some(l) => token_fit(range@, offered@) == Some(l as nat),
            None => token_fit(range@, offered@) is None,
        },
{
    if eq_ignoring_case(range, offered) {
        Some(0)
    } else {
        let v = chars_of(range);
        let star = v.len() == 1 && v[0] == '*';
        assert(star == (v@ =~= seq!['*']));
        if star {
            Some(1)
        } else {
            None
        }
    }
}

/// Finds for a range the best of the names provided: its index and how
/// closely it fits.
pub fn token_provided(range: &str, provided: &Vec<String>) -> (r: Option<(usize, u8)>)
    ensures
        match r {
            Some((index, level)) => closest(
                token_levels(range@, texts(provided@)),
                provided.len() as int,
            ) == Some(Offer { index: index as int, level: level as nat }) && index
                < provided.len(),
            None => closest(token_levels(range@, texts(provided@)), provided.len() as int)
                is None,
        },
{
    let ghost levels = token_levels(range@, texts(provided@));
    let mut best: Option<(usize, u8)> = None;
    let mut i: usize = 0;
    while i < provided.len()
        invariant
            i <= provided.len(),
            levels == token_levels(range@, texts(provided@)),
            match best {
                Some((index, level)) => closest(levels, i as int) == Some(
                    Offer { index: index as int, level: level as nat },
                ) && index < i,
                None => closest(levels, i as int) is None,
            },
        decreases provided.len() - i,
    {
        assert(levels[i as int] == token_fit(range@, provided@[i as int]@));
        match fit_token(range, provided[i].as_str()) {
            None => {},
            Some(level) => {
                match best {
                    Some((_, held)) => {
                        if level < held {
                            best = Some((i, level));
                        }
                    },
                    None => {
                        best = Some((i, level));
                    },
                }
            },
        }
        i += 1;
    }
    best
}

/// Chooses among the names provided the one that the ranges of a header
/// select.
pub fn select_token(provided: &Vec<String>, ranges: &Vec<TokenRange>) -> (r: Option<usize>)
    ensures
        match r {
            Some(i) => i < provided.len() && token_pick(
                texts(provided@),
                token_range_views(ranges@),
            ) == Some(i as int),
            None => token_pick(texts(provided@), token_range_views(ranges@)) is None,
        },
{
    let ghost offers = texts(provided@);
    let ghost asked = token_range_views(ranges@);
    let ghost bids = token_bids(offers, asked);
    // The winning bid so far: its position, the offer it found, its level and weight.
    let mut best: Option<(usize, usize, u8, u64)> = None;
    let mut k: usize = 0;
    while k < ranges.len()
        invariant
            k <= ranges.len(),
            offers == texts(provided@),
            asked == token_range_views(ranges@),
            bids == token_bids(offers, asked),
            bids.len() == ranges.len(),
            match best {
                Some((at, index, level, weight)) => {
                    &&& winner(bids, k as int) == Some(at as int)
                    &&& at < k
                    &&& bids[at as int] == Bid {
                        offer: Some(Offer { index: index as int, level: level as nat }),
                        weight: weight as nat,
                    }
                    &&& index < provided.len()
                },
                None => winner(bids, k as int) is None,
            },
        decreases ranges.len() - k,
    {
        let range = &ranges[k];
        assert(asked[k as int] == ranges@[k as int]@);
        let found = token_provided(range.token.as_str(), provided);
        assert(bids[k as int].offer == closest(
            token_levels(range.token@, offers),
            offers.len() as int,
        ));
        assert(bids[k as int].weight == range.weight as nat);
        match found {
            Some((index, level)) => {
                if range.weight > 0 {
                    let better = match best {
                        Some((_, _, held_level, held_weight)) => range.weight > held_weight || (
                        range.weight == held_weight && level < held_level),
                        None => true,
                    };
                    if better {
                        best = Some((k, index, level, range.weight));
                    }
                }
            },
            None => {},
        }
        k += 1;
    }
    match best {
        Some((_, index, _, _)) => Some(index),
        None => None,
    }
}

/// Picks the name that an `Accept-Charset`, `Accept-Language` or
/// `Accept-Encoding` header asks for among those provided, by the rules of
/// `choose_mediatype`: a name fits a range that is the same up to letter
/// case, and less closely the range `*`.
pub fn choose_token(provided: &Vec<String>, header: &str) -> (r: Result<usize, Error>)
    ensures
        match token_choice(texts(provided@), header@) {
            Ok(i) => 0 <= i < provided.len() && r == Ok::<usize, Error>(i as usize),
            Err(e) => r == Err::<usize, Error>(e),
        },
{
    match parse_tokens(header) {
        Err(e) => Err(e),
        Ok(ranges) => match select_token(provided, &ranges) {
            Some(i) => Ok(i),
            None => Err(Error::NotProvided),
        },
    }
}

} // verus!
