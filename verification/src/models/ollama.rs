//! The public model library: parameter counts from size tags, model
//! families from names, and catalogue entries from the library listing.

use vstd::prelude::*;

use super::numeral::{
    ceil_div, lemma_pow10_pos, pow10, all_digits, digits_num, digits_of, dot_count, frac_len, is_digit, lemma_digits_num_zero,
    numeral_parts, scaled_ceil, scaled_value,
};
use super::{entries_view, ModelEntry, ModelEntryView};
use super::scrape::{page_listing, scrape_listing};
use crate::text::{
    strings_view, trim_str, trimmed, string_from_chars, char_to_uppercase, chars_eq, chars_of, join, lemma_split_nonempty, lowercase, push_char,
    split, split_chars, to_lowercase, uppercase, all_ascii, ascii_lower, ascii_upper,
    lemma_split_all_ascii,
};

verus! {

// ---------------------------------------------------------------------------
// Parameter counts from size tags
// ---------------------------------------------------------------------------

pub open spec fn is_numeral_char(c: char) -> bool {
    is_digit(c) || c == '.'
}

/// The end of the run of digits and decimal points that starts at `i`.
pub open spec fn run_end(s: Seq<char>, i: int) -> int
    decreases s.len() - i,
{
    if 0 <= i < s.len() && is_numeral_char(s[i]) {
        run_end(s, i + 1)
    } else {
        i
    }
}

/// The power of ten that a unit letter stands for: `b`/`B` billions,
/// `m`/`M` millions.
pub open spec fn unit_exponent(c: char) -> Option<nat> {
    if c == 'b' || c == 'B' {
        Some(9)
    } else if c == 'm' || c == 'M' {
        Some(6)
    } else {
        None
    }
}

/// A numeral that reads as a positive number (at most one decimal point).
pub open spec fn numeral_accepted(t: Seq<char>) -> bool {
    dot_count(t) <= 1 && digits_num(digits_of(t)) > 0
}

pub proof fn lemma_run_end(s: Seq<char>, i: int)
    requires
        0 <= i <= s.len(),
    ensures
        i <= run_end(s, i) <= s.len(),
        run_end(s, i) < s.len() ==> !is_numeral_char(s[run_end(s, i)]),
        forall|k: int| i <= k < run_end(s, i) ==> is_numeral_char(#[trigger] s[k]),
    decreases s.len() - i,
{
    if i < s.len() && is_numeral_char(s[i]) {
        lemma_run_end(s, i + 1);
    }
}

/// The first parameter count written in `s` at or after position `i`: the
/// first run of digits and decimal points that starts with a digit, is a
/// positive numeral with at most one decimal point, and is directly followed
/// by a unit letter.
pub open spec fn scan_params(s: Seq<char>, i: int) -> Option<u64>
    decreases s.len() - i,
{
    if i < 0 || i >= s.len() {
        None
    } else if is_digit(s[i]) {
        let j = run_end(s, i);
        proof {
            lemma_run_end(s, i);
        }
        if j < s.len() && numeral_accepted(s.subrange(i, j)) && unit_exponent(s[j]) is Some {
            Some(scaled_value(s.subrange(i, j), unit_exponent(s[j])->0))
        } else if j > i {
            scan_params(s, j)
        } else {
            None
        }
    } else {
        scan_params(s, i + 1)
    }
}

/// The parameter count that a size tag such as "8b", "0.5b", "14b-instruct"
/// or "270m" denotes, rounded up to a whole parameter and capped at `u64::MAX`.
pub open spec fn spec_parse_param(tag: Seq<char>) -> Option<u64> {
    scan_params(tag, 0)
}

proof fn lemma_scan_positive(s: Seq<char>, i: int)
    ensures
        scan_params(s, i) matches Some(p) ==> p > 0,
    decreases s.len() - i,
{
    if 0 <= i < s.len() {
        if is_digit(s[i]) {
            let j = run_end(s, i);
            lemma_run_end(s, i);
            if j < s.len() && numeral_accepted(s.subrange(i, j)) && unit_exponent(s[j]) is Some {
                let t = s.subrange(i, j);
                let e = unit_exponent(s[j])->0;
                let n = digits_num(digits_of(t));
                let q = pow10(e);
                let d = pow10(frac_len(t));
                lemma_pow10_pos(e);
                lemma_pow10_pos(frac_len(t));
                assert(n * q >= 1) by (nonlinear_arith)
                    requires
                        n >= 1,
                        q >= 1,
                ;
                assert(ceil_div(n * q, d) >= 1) by (nonlinear_arith)
                    requires
                        n * q >= 1,
                        d >= 1,
                ;
            } else if j > i {
                lemma_scan_positive(s, j);
            }
        } else {
            lemma_scan_positive(s, i + 1);
        }
    }
}

/// A size tag that parses names a positive parameter count: a parsed tag is
/// never mistaken for the "unknown" count 0.
pub proof fn law_parsed_count_positive(tag: Seq<char>)
    ensures
        spec_parse_param(tag) matches Some(p) ==> p > 0,
{
    lemma_scan_positive(tag, 0);
}

fn is_digit_char(c: char) -> (b: bool)
    ensures
        b == is_digit(c),
{
    '0' <= c && c <= '9'
}

fn unit_of(c: char) -> (e: Option<usize>)
    ensures
        e matches Some(x) ==> unit_exponent(c) == Some(x as nat),
        e is None ==> unit_exponent(c) is None,
{
    if c == 'b' || c == 'B' {
        Some(9)
    } else if c == 'm' || c == 'M' {
        Some(6)
    } else {
        None
    }
}

fn has_nonzero(d: &Vec<char>) -> (b: bool)
    ensures
        b == (exists|i: int| 0 <= i < d@.len() && #[trigger] d@[i] != '0'),
{
    let mut i: usize = 0;
    while i < d.len()
        invariant
            i <= d@.len(),
            forall|k: int| 0 <= k < i ==> #[trigger] d@[k] == '0',
        decreases d@.len() - i,
    {
        if d[i] != '0' {
            return true;
        }
        i += 1;
    }
    false
}

proof fn lemma_digits_of_all_digits(t: Seq<char>)
    requires
        forall|k: int| 0 <= k < t.len() ==> is_numeral_char(#[trigger] t[k]),
    ensures
        all_digits(digits_of(t)),
        frac_len(t) <= digits_of(t).len(),
    decreases t.len(),
{
    if t.len() > 0 {
        let t0 = t.drop_last();
        assert forall|k: int| 0 <= k < t0.len() implies is_numeral_char(#[trigger] t0[k]) by {
            assert(t0[k] == t[k]);
        }
        lemma_digits_of_all_digits(t0);
        assert(is_numeral_char(t[t.len() - 1]));
        let d0 = digits_of(t0);
        if t.last() != '.' {
            assert forall|k: int| 0 <= k < d0.len() + 1 implies is_digit(
                #[trigger] d0.push(t.last())[k],
            ) by {
                if k < d0.len() {
                    assert(d0.push(t.last())[k] == d0[k]);
                }
            }
        }
    }
}

/// Extracts a parameter count from a size tag: the first run of digits (with
/// an optional decimal point) directly followed by `b`/`B` (billions) or
/// `m`/`M` (millions), e.g. "8b", "70b", "0.5b", "14b-instruct", "270m".
/// The count is rounded up to a whole parameter and capped at `u64::MAX`.
pub fn parse_param_from_tag(tag: &str) -> (r: Option<u64>)
    ensures
        r == spec_parse_param(tag@),
{
    let v = chars_of(tag);
    let n = v.len();
    let mut i: usize = 0;
    while i < n
        invariant
            n == v@.len(),
            i <= n,
            v@ == tag@,
            spec_parse_param(tag@) == scan_params(v@, i as int),
        decreases n - i,
    {
        if is_digit_char(v[i]) {
            let start = i;
            proof {
                lemma_run_end(v@, start as int);
            }
            while i < n && (is_digit_char(v[i]) || v[i] == '.')
                invariant
                    n == v@.len(),
                    start <= i <= n,
                    is_digit(v@[start as int]),
                    run_end(v@, start as int) == run_end(v@, i as int),
                decreases n - i,
            {
                i += 1;
            }
            proof {
                lemma_run_end(v@, i as int);
                lemma_run_end(v@, start as int);
                assert(run_end(v@, i as int) == i);
                assert(i > start);
            }
            if i < n {
                let (digits, dots, frac) = numeral_parts(&v, start, i);
                let unit = unit_of(v[i]);
                proof {
                    let t = v@.subrange(start as int, i as int);
                    assert forall|k: int| 0 <= k < t.len() implies is_numeral_char(#[trigger] t[k]) by {
                        assert(t[k] == v@[start + k]);
                    }
                    lemma_digits_of_all_digits(t);
                    lemma_digits_num_zero(digits@);
                }
                if dots <= 1 && has_nonzero(&digits) {
                    if let Some(e) = unit {
                        return Some(scaled_ceil(&digits, frac, e));
                    }
                }
            }
        } else {
            i += 1;
        }
    }
    None
}


// ---------------------------------------------------------------------------
// Named size tags
// ---------------------------------------------------------------------------

/// The parameter count of a well-known named tag (the part before the first
/// hyphen, lowercased), or 0 for an unknown tag.
pub open spec fn named_tag_count(prefix: Seq<char>) -> u64 {
    if prefix == "mini"@ {
        3_800_000_000
    } else if prefix == "medium"@ {
        14_000_000_000
    } else if prefix == "large"@ {
        34_000_000_000
    } else if prefix == "small"@ {
        7_000_000_000
    } else if prefix == "tiny"@ {
        1_100_000_000
    } else if prefix == "nemo"@ {
        12_000_000_000
    } else if prefix == "nano"@ {
        500_000_000
    } else {
        0
    }
}

pub open spec fn spec_named_tag(tag: Seq<char>) -> u64 {
    named_tag_count(split(lowercase(tag), '-')[0])
}

/// Returns a known parameter count for special named tags, matching the
/// beginning of the tag so that "mini-instruct" also hits "mini".
/// Returns 0 if the tag is not recognised (treated as "unknown").
pub fn named_tag_lookup(tag: &str) -> (count: u64)
    ensures
        count == spec_named_tag(tag@),
        all_ascii(tag@) ==> count == named_tag_count(
            split(tag@.map_values(|c: char| ascii_lower(c)), '-')[0],
        ),
{
    let lower = to_lowercase(tag);
    let pieces = split_chars(&chars_of(lower.as_str()), '-');
    proof {
        lemma_split_nonempty(lower@, '-');
    }
    let prefix = &pieces[0];
    if chars_eq(prefix, &chars_of("mini")) {
        3_800_000_000
    } else if chars_eq(prefix, &chars_of("medium")) {
        14_000_000_000
    } else if chars_eq(prefix, &chars_of("large")) {
        34_000_000_000
    } else if chars_eq(prefix, &chars_of("small")) {
        7_000_000_000
    } else if chars_eq(prefix, &chars_of("tiny")) {
        1_100_000_000
    } else if chars_eq(prefix, &chars_of("nemo")) {
        12_000_000_000
    } else if chars_eq(prefix, &chars_of("nano")) {
        500_000_000
    } else {
        0
    }
}

// ---------------------------------------------------------------------------
// Parameter resolution
// ---------------------------------------------------------------------------

/// The parameter count of the last entry of `db` named `id`, if any.
pub open spec fn last_param_of(db: Seq<ModelEntry>, id: Seq<char>) -> Option<u64>
    decreases db.len(),
{
    if db.len() == 0 {
        None
    } else if db.last().name@ == id {
        Some(db.last().param_count)
    } else {
        last_param_of(db.drop_last(), id)
    }
}

/// The size tag of a model identifier: the text after its first `:` (up to a
/// second one), or empty when there is none.
pub open spec fn tag_of(id: Seq<char>) -> Seq<char> {
    let p = split(id, ':');
    if p.len() > 1 {
        p[1]
    } else {
        Seq::<char>::empty()
    }
}

/// Parameter resolution: the static database first, then the numeric size
/// tag, then the named tag (0 when all three fail).
pub open spec fn spec_resolve_params(id: Seq<char>, db: Seq<ModelEntry>) -> u64 {
    match last_param_of(db, id) {
        Some(p) => p,
        None => match spec_parse_param(tag_of(id)) {
            Some(p) => p,
            None => spec_named_tag(tag_of(id)),
        },
    }
}

fn lookup_static(model_id: &str, static_db: &[ModelEntry]) -> (r: Option<u64>)
    ensures
        r == last_param_of(static_db@, model_id@),
{
    let id = model_id.to_owned();
    let mut i = static_db.len();
    assert(static_db@.take(i as int) =~= static_db@);
    while i > 0
        invariant
            i <= static_db@.len(),
            id@ == model_id@,
            last_param_of(static_db@, model_id@) == last_param_of(static_db@.take(i as int), model_id@),
        decreases i,
    {
        let ghost pre = static_db@.take(i as int);
        assert(pre.drop_last() =~= static_db@.take(i - 1));
        assert(pre.last() == static_db@[i - 1]);
        if static_db[i - 1].name == id {
            return Some(static_db[i - 1].param_count);
        }
        i -= 1;
    }
    None
}

/// Resolves the number of parameters for a model identifier. Tries, in order:
/// the static database (its last entry of that name), numeric extraction from
/// the size tag ("8b", "270m"), a named-tag lookup ("mini"), and falls back
/// to 0 (unknown).
pub fn resolve_params(model_id: &str, static_db: &[ModelEntry]) -> (count: u64)
    ensures
        count == spec_resolve_params(model_id@, static_db@),
{
    if let Some(p) = lookup_static(model_id, static_db) {
        return p;
    }
    let id = chars_of(model_id);
    let pieces = split_chars(&id, ':');
    let tag = if pieces.len() > 1 {
        crate::text::string_from_chars(&pieces[1])
    } else {
        String::new()
    };
    if let Some(p) = parse_param_from_tag(tag.as_str()) {
        return p;
    }
    named_tag_lookup(tag.as_str())
}

// ---------------------------------------------------------------------------
// Model families
// ---------------------------------------------------------------------------

/// A word with its first character in upper case.
pub open spec fn capitalize_word(w: Seq<char>) -> Seq<char> {
    if w.len() == 0 {
        w
    } else {
        uppercase(w[0]) + w.drop_first()
    }
}

/// A word with its first character in ASCII upper case.
pub open spec fn ascii_capitalize_word(w: Seq<char>) -> Seq<char> {
    if w.len() == 0 {
        w
    } else {
        seq![ascii_upper(w[0])] + w.drop_first()
    }
}

/// Each hyphen-separated word capitalised, the words joined by spaces.
pub open spec fn spec_capitalize_words(s: Seq<char>) -> Seq<char> {
    join(split(s, '-').map_values(|w: Seq<char>| capitalize_word(w)), seq![' '])
}

fn capitalize_piece(w: &Vec<char>) -> (r: String)
    ensures
        r@ == capitalize_word(w@),
        all_ascii(w@) ==> r@ == ascii_capitalize_word(w@),
{
    if w.len() == 0 {
        return String::new();
    }
    let mut r = char_to_uppercase(w[0]);
    let mut i: usize = 1;
    assert(w@.subrange(1, 1) =~= Seq::<char>::empty());
    while i < w.len()
        invariant
            1 <= i <= w@.len(),
            r@ == uppercase(w@[0]) + w@.subrange(1, i as int),
            all_ascii(w@) ==> uppercase(w@[0]) == seq![ascii_upper(w@[0])],
        decreases w@.len() - i,
    {
        push_char(&mut r, w[i]);
        assert(w@.subrange(1, i + 1) =~= w@.subrange(1, i as int).push(w@[i as int]));
        i += 1;
    }
    assert(w@.subrange(1, w@.len() as int) =~= w@.drop_first());
    r
}

/// Capitalises each hyphen-separated word in a model name, joining the words
/// with spaces: "deepseek-r1" gives "Deepseek R1", "llama3" gives "Llama3".
pub fn capitalize_words(s: &str) -> (r: String)
    ensures
        r@ == spec_capitalize_words(s@),
        all_ascii(s@) ==> r@ == join(
            split(s@, '-').map_values(|w: Seq<char>| ascii_capitalize_word(w)),
            seq![' '],
        ),
{
    let pieces = split_chars(&chars_of(s), '-');
    let ghost caps = split(s@, '-').map_values(|w: Seq<char>| capitalize_word(w));
    let ghost acaps = split(s@, '-').map_values(|w: Seq<char>| ascii_capitalize_word(w));
    proof {
        if all_ascii(s@) {
            lemma_split_all_ascii(s@, '-');
        }
    }
    let mut out = String::new();
    let mut i: usize = 0;
    assert(caps.take(0) =~= Seq::<Seq<char>>::empty());
    while i < pieces.len()
        invariant
            pieces@.len() == split(s@, '-').len() == caps.len() == acaps.len(),
            forall|k: int| 0 <= k < pieces@.len() ==> #[trigger] pieces@[k]@ == split(s@, '-')[k],
            caps == split(s@, '-').map_values(|w: Seq<char>| capitalize_word(w)),
            acaps == split(s@, '-').map_values(|w: Seq<char>| ascii_capitalize_word(w)),
            all_ascii(s@) ==> forall|k: int|
                0 <= k < split(s@, '-').len() ==> all_ascii(#[trigger] split(s@, '-')[k]),
            all_ascii(s@) ==> forall|k: int| 0 <= k < i ==> #[trigger] caps[k] == acaps[k],
            i <= pieces@.len(),
            out@ == join(caps.take(i as int), seq![' ']),
        decreases pieces@.len() - i,
    {
        let word = capitalize_piece(&pieces[i]);
        assert(word@ == caps[i as int]);
        proof {
            if all_ascii(s@) {
                assert(all_ascii(split(s@, '-')[i as int]));
                assert(word@ == acaps[i as int]);
            }
        }
        let ghost before = out@;
        if i > 0 {
            push_char(&mut out, ' ');
        }
        out.append(word.as_str());
        proof {
            let t = caps.take(i + 1);
            assert(t.drop_last() =~= caps.take(i as int));
            assert(t.last() == caps[i as int]);
            if i == 0 {
                assert(before =~= Seq::<char>::empty());
                assert(out@ =~= t[0]);
            } else {
                assert(out@ =~= before + seq![' '] + caps[i as int]);
            }
        }
        i += 1;
    }
    assert(caps.take(pieces@.len() as int) =~= caps);
    proof {
        if all_ascii(s@) {
            assert(caps =~= acaps);
        }
    }
    out
}


// ---------------------------------------------------------------------------
// Catalogue entries from the library listing
// ---------------------------------------------------------------------------

/// What the library page shows of one model (each `li[x-test-model]`), as
/// raw text: the `title` attributes of its `div[x-test-model-title]`
/// elements, the texts of its `p.max-w-lg` elements and the texts of its
/// `span[x-test-size]` elements, each in the order the page queries yield them.
pub struct ListedModel {
    pub titles: Vec<Option<String>>,
    pub descriptions: Vec<String>,
    pub sizes: Vec<String>,
}

/// The mathematical value of a `ListedModel`.
pub struct ListedModelView {
    pub titles: Seq<Option<Seq<char>>>,
    pub descriptions: Seq<Seq<char>>,
    pub sizes: Seq<Seq<char>>,
}

pub open spec fn option_string_view(t: Option<String>) -> Option<Seq<char>> {
    match t {
        Some(s) => Some(s@),
        None => None,
    }
}

impl View for ListedModel {
    type V = ListedModelView;

    open spec fn view(&self) -> ListedModelView {
        ListedModelView {
            titles: self.titles@.map_values(|t: Option<String>| option_string_view(t)),
            descriptions: strings_view(self.descriptions@),
            sizes: strings_view(self.sizes@),
        }
    }
}

/// The views of a listing.
pub open spec fn listing_view(listing: Seq<ListedModel>) -> Seq<ListedModelView> {
    listing.map_values(|m: ListedModel| m@)
}

/// The model name of a listed model: the trimmed `title` of its first title
/// element, when that element has one and it is not blank.
pub open spec fn listed_name(m: ListedModelView) -> Option<Seq<char>> {
    if m.titles.len() > 0 {
        match m.titles[0] {
            Some(t) => if trimmed(t).len() > 0 {
                Some(trimmed(t))
            } else {
                None
            },
            None => None,
        }
    } else {
        None
    }
}

/// The description of a listed model: the trimmed text of its first
/// description element, or empty.
pub open spec fn listed_description(m: ListedModelView) -> Seq<char> {
    if m.descriptions.len() > 0 {
        trimmed(m.descriptions[0])
    } else {
        Seq::<char>::empty()
    }
}

/// The size tags: each size text trimmed and lowercased, empty ones left out.
pub open spec fn size_tags(sizes: Seq<Seq<char>>) -> Seq<Seq<char>>
    decreases sizes.len(),
{
    if sizes.len() == 0 {
        Seq::<Seq<char>>::empty()
    } else {
        let r = size_tags(sizes.drop_last());
        let t = lowercase(trimmed(sizes.last()));
        if t.len() > 0 {
            r.push(t)
        } else {
            r
        }
    }
}

/// The catalogue entry for a model identifier.
pub open spec fn entry_for(
    id: Seq<char>,
    family: Seq<char>,
    description: Seq<char>,
    db: Seq<ModelEntry>,
) -> ModelEntryView {
    ModelEntryView {
        name: id,
        param_count: spec_resolve_params(id, db),
        family: family,
        description: description,
    }
}

/// The entries of one listed model: one per size tag ("name:tag"), or the bare
/// name when it lists no sizes; none when it has no name.
pub open spec fn entries_of(m: ListedModelView, db: Seq<ModelEntry>) -> Seq<ModelEntryView> {
    match listed_name(m) {
        None => Seq::<ModelEntryView>::empty(),
        Some(name) => {
            let family = spec_capitalize_words(name);
            let desc = listed_description(m);
            let tags = size_tags(m.sizes);
            if tags.len() == 0 {
                seq![entry_for(name, family, desc, db)]
            } else {
                tags.map_values(|t: Seq<char>| entry_for(name + seq![':'] + t, family, desc, db))
            }
        },
    }
}

/// The entries of a whole listing, in page order.
pub open spec fn library_entries(listing: Seq<ListedModelView>, db: Seq<ModelEntry>) -> Seq<
    ModelEntryView,
>
    decreases listing.len(),
{
    if listing.len() == 0 {
        Seq::<ModelEntryView>::empty()
    } else {
        library_entries(listing.drop_last(), db) + entries_of(listing.last(), db)
    }
}

/// The entries of a listing are those of each listed model in page order:
/// the entries of two listings one after the other are the entries of the
/// first followed by those of the second.
pub proof fn law_library_entries_concat(
    first: Seq<ListedModelView>,
    second: Seq<ListedModelView>,
    db: Seq<ModelEntry>,
)
    ensures
        library_entries(first + second, db) == library_entries(first, db) + library_entries(
            second,
            db,
        ),
    decreases second.len(),
{
    if second.len() == 0 {
        assert(first + second =~= first);
        assert(library_entries(first, db) + library_entries(second, db) =~= library_entries(
            first,
            db,
        ));
    } else {
        law_library_entries_concat(first, second.drop_last(), db);
        assert((first + second).drop_last() =~= first + second.drop_last());
        assert((first + second).last() == second.last());
        assert(library_entries(first + second, db) =~= library_entries(first, db)
            + library_entries(second, db));
    }
}

/// A listing of one model gives exactly that model's entries.
pub proof fn law_library_entries_single(m: ListedModelView, db: Seq<ModelEntry>)
    ensures
        library_entries(seq![m], db) == entries_of(m, db),
{
    let one = seq![m];
    assert(one.drop_last() =~= Seq::<ListedModelView>::empty());
    assert(one.last() == m);
    assert(library_entries(Seq::<ListedModelView>::empty(), db) == Seq::<ModelEntryView>::empty());
    assert(library_entries(one, db) == library_entries(one.drop_last(), db) + entries_of(m, db));
    assert(library_entries(one, db) =~= entries_of(m, db));
}

pub open spec fn no_models_message() -> Seq<char> {
    "No models found — ollama.com/library structure may have changed"@
}

/// The entries of a listing, or an error when it yields none.
pub open spec fn spec_library_result(listing: Seq<ListedModelView>, db: Seq<ModelEntry>) -> Result<
    Seq<ModelEntryView>,
    Seq<char>,
> {
    let entries = library_entries(listing, db);
    if entries.len() == 0 {
        Err(no_models_message())
    } else {
        Ok(entries)
    }
}

pub open spec fn result_view(r: Result<Vec<ModelEntry>, String>) -> Result<
    Seq<ModelEntryView>,
    Seq<char>,
> {
    match r {
        Ok(v) => Ok(entries_view(v@)),
        Err(e) => Err(e@),
    }
}

fn size_tags_of(sizes: &Vec<String>) -> (tags: Vec<String>)
    ensures
        tags@.len() == size_tags(strings_view(sizes@)).len(),
        forall|k: int|
            0 <= k < tags@.len() ==> #[trigger] tags@[k]@ == size_tags(strings_view(sizes@))[k],
{
    let ghost sv = strings_view(sizes@);
    let mut tags: Vec<String> = Vec::new();
    let mut i: usize = 0;
    assert(sv.take(0) =~= Seq::<Seq<char>>::empty());
    while i < sizes.len()
        invariant
            i <= sizes@.len(),
            sv == strings_view(sizes@),
            tags@.len() == size_tags(sv.take(i as int)).len(),
            forall|k: int|
                0 <= k < tags@.len() ==> #[trigger] tags@[k]@ == size_tags(sv.take(i as int))[k],
        decreases sizes@.len() - i,
    {
        let t = to_lowercase(trim_str(sizes[i].as_str()).as_str());
        let ghost pre = sv.take(i + 1);
        assert(pre.drop_last() =~= sv.take(i as int));
        assert(pre.last() == sizes@[i as int]@);
        if !t.as_str().is_empty() {
            tags.push(t);
        }
        i += 1;
    }
    assert(sv.take(sizes@.len() as int) =~= sv);
    tags
}

fn push_entry(
    out: &mut Vec<ModelEntry>,
    id: String,
    family: &String,
    description: &String,
    static_db: &[ModelEntry],
)
    ensures
        entries_view(final(out)@) == entries_view(old(out)@).push(
            entry_for(id@, family@, description@, static_db@),
        ),
{
    let param_count = resolve_params(id.as_str(), static_db);
    let ghost before = out@;
    out.push(ModelEntry {
        name: id,
        param_count,
        family: family.clone(),
        description: description.clone(),
    });
    assert(entries_view(out@) =~= entries_view(before).push(
        entry_for(id@, family@, description@, static_db@),
    ));
}

fn push_entries_of(out: &mut Vec<ModelEntry>, m: &ListedModel, static_db: &[ModelEntry])
    ensures
        entries_view(final(out)@) == entries_view(old(out)@) + entries_of(m@, static_db@),
{
    let ghost before = entries_view(out@);
    if m.titles.len() == 0 {
        assert(entries_of(m@, static_db@) =~= Seq::<ModelEntryView>::empty());
        return ;
    }
    assert(m@.titles[0] == option_string_view(m.titles@[0]));
    let name = match &m.titles[0] {
        Some(t) => trim_str(t.as_str()),
        None => {
            assert(entries_of(m@, static_db@) =~= Seq::<ModelEntryView>::empty());
            return ;
        },
    };
    if name.as_str().is_empty() {
        assert(entries_of(m@, static_db@) =~= Seq::<ModelEntryView>::empty());
        return ;
    }
    let description = if m.descriptions.len() > 0 {
        trim_str(m.descriptions[0].as_str())
    } else {
        String::new()
    };
    let tags = size_tags_of(&m.sizes);
    let family = capitalize_words(name.as_str());
    let ghost expected = entries_of(m@, static_db@);
    if tags.len() == 0 {
        push_entry(out, name, &family, &description, static_db);
        assert(entries_view(out@) =~= before + expected);
    } else {
        let ghost tv = size_tags(m@.sizes);
        let mut i: usize = 0;
        while i < tags.len()
            invariant
                tags@.len() == tv.len(),
                tv == size_tags(m@.sizes),
                forall|k: int| 0 <= k < tags@.len() ==> #[trigger] tags@[k]@ == tv[k],
                listed_name(m@) == Some(name@),
                family@ == spec_capitalize_words(name@),
                description@ == listed_description(m@),
                expected == entries_of(m@, static_db@),
                expected == tv.map_values(
                    |t: Seq<char>| entry_for(name@ + seq![':'] + t, family@, description@, static_db@),
                ),
                i <= tags@.len(),
                entries_view(out@) == before + expected.take(i as int),
            decreases tags@.len() - i,
        {
            let mut id = name.clone();
            push_char(&mut id, ':');
            id.append(tags[i].as_str());
            assert(id@ == name@ + seq![':'] + tv[i as int]);
            push_entry(out, id, &family, &description, static_db);
            assert(expected.take(i + 1) =~= expected.take(i as int).push(expected[i as int]));
            assert(entries_view(out@) =~= before + expected.take(i + 1));
            i += 1;
        }
        assert(expected.take(tags@.len() as int) =~= expected);
    }
}

/// Turns a scraped listing into catalogue entries: one entry per
/// (model × size tag) pair, e.g. "deepseek-r1:7b", or the bare name when a
/// model lists no sizes, with parameters resolved against `static_db`; an
/// error when the listing yields no entry at all.
pub fn entries_from_listing(listing: &Vec<ListedModel>, static_db: &[ModelEntry]) -> (r: Result<
    Vec<ModelEntry>,
    String,
>)
    ensures
        result_view(r) == spec_library_result(listing_view(listing@), static_db@),
{
    let ghost lv = listing_view(listing@);
    let mut entries: Vec<ModelEntry> = Vec::new();
    let mut i: usize = 0;
    assert(lv.take(0) =~= Seq::<ListedModelView>::empty());
    assert(entries_view(entries@) =~= Seq::<ModelEntryView>::empty());
    while i < listing.len()
        invariant
            i <= listing@.len(),
            lv == listing_view(listing@),
            entries_view(entries@) == library_entries(lv.take(i as int), static_db@),
        decreases listing@.len() - i,
    {
        push_entries_of(&mut entries, &listing[i], static_db);
        let ghost pre = lv.take(i + 1);
        assert(pre.drop_last() =~= lv.take(i as int));
        assert(pre.last() == listing@[i as int]@);
        i += 1;
    }
    assert(lv.take(listing@.len() as int) =~= lv);
    if entries.len() == 0 {
        return Err(String::from_str("No models found — ollama.com/library structure may have changed"));
    }
    Ok(entries)
}

pub open spec fn selector_error_message() -> Seq<char> {
    "The library page selectors could not be compiled"@
}

/// What `parse_library_html` returns for a page: the entries of the listing
/// that the page's queries find, or the selector error when a selector does
/// not compile.
pub open spec fn spec_parse_library_html(html: Seq<char>, db: Seq<ModelEntry>) -> Result<
    Seq<ModelEntryView>,
    Seq<char>,
> {
    match page_listing(
        html,
        "li[x-test-model]"@,
        "div[x-test-model-title]"@,
        "p.max-w-lg"@,
        "span[x-test-size]"@,
    ) {
        Some(listing) => spec_library_result(listing, db),
        None => Err(selector_error_message()),
    }
}

/// Parses the HTML of ollama.com/library and returns model entries.
///
/// Uses the stable `x-test-*` attributes as anchors: each `li[x-test-model]`
/// is one model, named by the `title` of its first `div[x-test-model-title]`,
/// described by its first `p.max-w-lg` and sized by its `span[x-test-size]`
/// tags; the listing the page shows is turned into entries by
/// `entries_from_listing`.
pub fn parse_library_html(html: &str, static_db: &[ModelEntry]) -> (r: Result<
    Vec<ModelEntry>,
    String,
>)
    ensures
        result_view(r) == spec_parse_library_html(html@, static_db@),
{
    let listing = scrape_listing(
        html,
        "li[x-test-model]",
        "div[x-test-model-title]",
        "p.max-w-lg",
        "span[x-test-size]",
    );
    match listing {
        Some(listing) => entries_from_listing(&listing, static_db),
        None => Err(String::from_str("The library page selectors could not be compiled")),
    }
}

} // verus!
