//! The model contract of the Zipformer CTC recognizer: its tensor shapes,
//! how many feature and output frames a clip fills, which mask positions are
//! valid, and the greedy CTC decoding of token ids into text. Feature
//! extraction and inference run in the program around it.
use vstd::prelude::*;
use crate::server::{decimal, decimal_chars};
use crate::text::{
    chars_of, concat_chars, join, join_chars, lemma_line_end, line_end, string_of,
    string_views, trim, trim_chars, views,
};

verus! {

/// Feature frames of the model input.
pub const MODEL_FRAMES: usize = 1600;

/// Mel bins per feature frame.
pub const FEATURE_BINS: usize = 80;

/// Frames of the model output.
pub const OUTPUT_FRAMES: usize = 398;

/// Tokens of the output vocabulary.
pub const VOCABULARY_SIZE: usize = 500;

/// The id of the CTC blank token.
pub const CTC_BLANK_ID: usize = 0;

/// The lengths of the four padding masks, from the finest level.
pub open spec fn mask_lengths() -> Seq<usize> {
    seq![796usize, 398usize, 199usize, 100usize]
}

/// What went wrong with a Zipformer model or its files.
#[derive(Debug, PartialEq, Eq)]
pub enum ZipformerError {
    MissingModel(String),
    MissingTokenizer(String),
    MissingTokens(String),
    InvalidTokens { path: String, message: String },
    Contract(String),
    Inference(String),
}

/// The message of an error.
pub open spec fn error_text(e: ZipformerError) -> Seq<char> {
    match e {
        ZipformerError::MissingModel(p) => "Zipformer model file does not exist: "@ + p@,
        ZipformerError::MissingTokenizer(p) => "Zipformer tokenizer file does not exist: "@ + p@,
        ZipformerError::MissingTokens(p) => "Zipformer token list file does not exist: "@ + p@,
        ZipformerError::InvalidTokens { path, message } => "invalid Zipformer token list at "@
            + path@ + ": "@ + message@,
        ZipformerError::Contract(m) => "Zipformer model contract error: "@ + m@,
        ZipformerError::Inference(m) => "Zipformer inference error: "@ + m@,
    }
}

impl ZipformerError {
    /// The error's message.
    pub fn message(&self) -> (r: String)
        ensures
            r@ == error_text(*self),
    {
        match self {
            ZipformerError::MissingModel(p) => crate::model::text2(
                "Zipformer model file does not exist: ",
                p.as_str(),
            ),
            ZipformerError::MissingTokenizer(p) => crate::model::text2(
                "Zipformer tokenizer file does not exist: ",
                p.as_str(),
            ),
            ZipformerError::MissingTokens(p) => crate::model::text2(
                "Zipformer token list file does not exist: ",
                p.as_str(),
            ),
            ZipformerError::InvalidTokens { path, message } => crate::model::text4(
                "invalid Zipformer token list at ",
                path.as_str(),
                ": ",
                message.as_str(),
            ),
            ZipformerError::Contract(m) => crate::model::text2(
                "Zipformer model contract error: ",
                m.as_str(),
            ),
            ZipformerError::Inference(m) => crate::model::text2(
                "Zipformer inference error: ",
                m.as_str(),
            ),
        }
    }
}

/// The identity a Zipformer model reports.
#[derive(Debug)]
pub struct ZipformerConfig {
    pub model_id: String,
    pub model_revision: Option<String>,
}

impl Default for ZipformerConfig {
    /// The id `zipformer`, without a revision.
    fn default() -> (c: Self)
        ensures
            c.model_id@ == "zipformer"@,
            c.model_revision is None,
    {
        ZipformerConfig { model_id: "zipformer".to_owned(), model_revision: None }
    }
}

// ---------------------------------------------------------------------------
// Frames and masks
// ---------------------------------------------------------------------------

/// The feature frames a clip of `samples` samples fills: one per 160
/// samples, rounded to nearest, at most `MODEL_FRAMES`.
pub open spec fn spec_feature_frames(samples: nat) -> nat {
    let f = (samples + 80) / 160;
    if f < 1600 {
        f
    } else {
        1600
    }
}

/// The feature frames a clip of `samples` samples fills.
pub fn feature_frame_count(samples: usize) -> (r: usize)
    ensures
        r == spec_feature_frames(samples as nat),
{
    let f = samples / 160 + if samples % 160 >= 80 {
        1
    } else {
        0
    };
    assert(f == (samples + 80) / 160) by (nonlinear_arith)
        requires
            f == samples / 160 + if samples % 160 >= 80 {
                1int
            } else {
                0int
            },
    ;
    if f < MODEL_FRAMES {
        f
    } else {
        MODEL_FRAMES
    }
}

/// The encoder frames that carry audio for `feature_frames` feature frames:
/// the subsampling front end consumes seven frames and halves the rest, at
/// most the finest mask's length.
pub open spec fn spec_valid_frames(feature_frames: nat) -> nat {
    let v = if feature_frames >= 7 {
        ((feature_frames - 7) / 2) as nat
    } else {
        0
    };
    if v < 796 {
        v
    } else {
        796
    }
}

/// The encoder frames that carry audio.
pub fn valid_frames(feature_frames: usize) -> (r: usize)
    ensures
        r == spec_valid_frames(feature_frames as nat),
{
    let v = if feature_frames >= 7 {
        (feature_frames - 7) / 2
    } else {
        0
    };
    if v < 796 {
        v
    } else {
        796
    }
}

/// The output frames decoded for `valid` encoder frames: half of them,
/// rounded up, at most `OUTPUT_FRAMES`.
pub open spec fn spec_output_frames(valid: nat) -> nat {
    let o = (valid + 1) / 2;
    if o < 398 {
        o
    } else {
        398
    }
}

/// The output frames decoded for `valid` encoder frames.
pub fn output_frames(valid: usize) -> (r: usize)
    ensures
        r == spec_output_frames(valid as nat),
{
    let o = valid / 2 + valid % 2;
    assert(o == (valid + 1) / 2);
    if o < OUTPUT_FRAMES {
        o
    } else {
        OUTPUT_FRAMES
    }
}

/// The stride of mask level `level`: 1, 2, 4, 8.
pub open spec fn level_stride(level: int) -> int {
    if level == 0 {
        1
    } else if level == 1 {
        2
    } else if level == 2 {
        4
    } else {
        8
    }
}

/// Which positions of each padding mask carry audio: position `i` of level
/// `l` does when `i` times the level's stride is below `valid`. The masks
/// have the model's lengths, 796, 398, 199 and 100.
pub fn mask_flags(valid: usize) -> (r: Vec<Vec<bool>>)
    ensures
        r@.len() == 4,
        forall|l: int| 0 <= l < 4 ==> #[trigger] r@[l]@.len() == mask_lengths()[l],
        forall|l: int, i: int|
            0 <= l < 4 && 0 <= i < mask_lengths()[l] ==> #[trigger] r@[l]@[i] == (i * level_stride(l)
                < valid),
{
    let lengths: [usize; 4] = [796, 398, 199, 100];
    let strides: [usize; 4] = [1, 2, 4, 8];
    assert(lengths@ == mask_lengths());
    let mut r: Vec<Vec<bool>> = Vec::new();
    let mut l: usize = 0;
    while l < 4
        invariant
            l <= 4,
            lengths@ == mask_lengths(),
            forall|k: int| 0 <= k < 4 ==> strides@[k] == level_stride(k),
            r@.len() == l,
            forall|k: int| 0 <= k < l ==> #[trigger] r@[k]@.len() == mask_lengths()[k],
            forall|k: int, i: int|
                0 <= k < l && 0 <= i < mask_lengths()[k] ==> #[trigger] r@[k]@[i] == (i
                    * level_stride(k) < valid),
        decreases 4 - l,
    {
        let len = lengths[l];
        let stride = strides[l];
        let mut m: Vec<bool> = Vec::new();
        let mut i: usize = 0;
        while i < len
            invariant
                len == mask_lengths()[l as int],
                len <= 796,
                stride == level_stride(l as int),
                1 <= stride <= 8,
                i <= len,
                m@.len() == i,
                forall|j: int| 0 <= j < i ==> #[trigger] m@[j] == (j * level_stride(l as int)
                    < valid),
            decreases len - i,
        {
            m.push(i * stride < valid);
            i += 1;
        }
        r.push(m);
        l += 1;
    }
    r
}

// ---------------------------------------------------------------------------
// Tensor shapes
// ---------------------------------------------------------------------------

/// What a model input carries.
#[derive(Clone, Copy, Debug, PartialEq, Eq, Structural)]
pub enum InputKind {
    Fbank,
    Mask(usize),
}

/// The input that a tensor of these dimensions is, if any: the features
/// `[1, 1600, 80]`, or one of the masks `[1, 796]`, `[1, 398]`, `[1, 199]`,
/// `[1, 100]`.
pub open spec fn spec_input_kind(dims: Seq<i64>) -> Option<InputKind> {
    if dims == seq![1i64, 1600i64, 80i64] {
        Some(InputKind::Fbank)
    } else if dims == seq![1i64, 796i64] {
        Some(InputKind::Mask(0))
    } else if dims == seq![1i64, 398i64] {
        Some(InputKind::Mask(1))
    } else if dims == seq![1i64, 199i64] {
        Some(InputKind::Mask(2))
    } else if dims == seq![1i64, 100i64] {
        Some(InputKind::Mask(3))
    } else {
        None
    }
}

fn dims_are(dims: &[i64], want: &[i64]) -> (r: bool)
    ensures
        r == (dims@ == want@),
{
    if dims.len() != want.len() {
        return false;
    }
    let mut i: usize = 0;
    while i < dims.len()
        invariant
            dims.len() == want.len(),
            i <= dims.len(),
            forall|k: int| 0 <= k < i ==> dims@[k] == want@[k],
        decreases dims.len() - i,
    {
        if dims[i] != want[i] {
            return false;
        }
        i += 1;
    }
    assert(dims@ =~= want@);
    true
}

/// The input that a tensor of these dimensions is, if any.
pub fn classify_input(dims: &[i64]) -> (r: Option<InputKind>)
    ensures
        r == spec_input_kind(dims@),
{
    let fbank: [i64; 3] = [1, 1600, 80];
    let m0: [i64; 2] = [1, 796];
    let m1: [i64; 2] = [1, 398];
    let m2: [i64; 2] = [1, 199];
    let m3: [i64; 2] = [1, 100];
    assert(fbank@ == seq![1i64, 1600i64, 80i64]);
    assert(m0@ == seq![1i64, 796i64]);
    assert(m1@ == seq![1i64, 398i64]);
    assert(m2@ == seq![1i64, 199i64]);
    assert(m3@ == seq![1i64, 100i64]);
    if dims_are(dims, &fbank) {
        Some(InputKind::Fbank)
    } else if dims_are(dims, &m0) {
        Some(InputKind::Mask(0))
    } else if dims_are(dims, &m1) {
        Some(InputKind::Mask(1))
    } else if dims_are(dims, &m2) {
        Some(InputKind::Mask(2))
    } else if dims_are(dims, &m3) {
        Some(InputKind::Mask(3))
    } else {
        None
    }
}

/// Whether the output tensor has the contract's dimensions `[1, 398, 500]`.
pub fn output_shape_ok(dims: &[i64]) -> (r: bool)
    ensures
        r == (dims@ == seq![1i64, 398i64, 500i64]),
{
    let want: [i64; 3] = [1, 398, 500];
    assert(want@ == seq![1i64, 398i64, 500i64]);
    dims_are(dims, &want)
}

// ---------------------------------------------------------------------------
// CTC decoding
// ---------------------------------------------------------------------------

/// The token pieces of the output vocabulary, by id.
#[derive(Debug)]
pub struct TokenVocabulary {
    tokens: Vec<String>,
}

/// The ids that greedy CTC keeps: each id that differs from the one of the
/// frame before, unless it is the blank.
pub open spec fn kept_ids(ids: Seq<usize>) -> Seq<usize>
    decreases ids.len(),
{
    if ids.len() == 0 {
        seq![]
    } else {
        let rest = kept_ids(ids.drop_last());
        let id = ids.last();
        if (ids.len() >= 2 && ids[ids.len() - 2] == id) || id == 0 {
            rest
        } else {
            rest.push(id)
        }
    }
}

/// The pieces of the ids, concatenated.
pub open spec fn pieces_of(tokens: Seq<String>, ids: Seq<usize>) -> Seq<char>
    decreases ids.len(),
{
    if ids.len() == 0 {
        seq![]
    } else {
        pieces_of(tokens, ids.drop_last()) + tokens[ids.last() as int]@
    }
}

/// `s` with every word-boundary mark `▁` replaced by a space.
pub open spec fn boundaries_to_spaces(s: Seq<char>) -> Seq<char> {
    s.map_values(|c: char| if c == '▁' { ' ' } else { c })
}

/// The text of a frame-by-frame id sequence: repeats collapsed, blanks
/// dropped, pieces joined, word boundaries turned into spaces, trimmed.
pub open spec fn ctc_text(tokens: Seq<String>, ids: Seq<usize>) -> Seq<char> {
    trim(boundaries_to_spaces(pieces_of(tokens, kept_ids(ids))))
}

impl TokenVocabulary {
    /// The pieces, by id.
    pub closed spec fn view(&self) -> Seq<String> {
        self.tokens@
    }

    /// A vocabulary of the given pieces, by id.
    pub fn from_tokens(tokens: Vec<String>) -> (v: Self)
        ensures
            v@ == tokens@,
    {
        TokenVocabulary { tokens }
    }

    /// The number of pieces.
    pub fn len(&self) -> (n: usize)
        ensures
            n == self@.len(),
    {
        self.tokens.len()
    }

    /// Whether there are no pieces.
    pub fn is_empty(&self) -> (r: bool)
        ensures
            r == (self@.len() == 0),
    {
        self.tokens.len() == 0
    }

    /// The text of the best id of each output frame. The vocabulary must
    /// have the model's `VOCABULARY_SIZE` pieces.
    pub fn decode_ids(&self, ids: &[usize]) -> (r: Result<String, ZipformerError>)
        requires
            forall|i: int| 0 <= i < ids@.len() ==> ids@[i] < self@.len(),
        ensures
            self@.len() != 500 ==> (r matches Err(ZipformerError::Contract(m)) && m@
                == vocabulary_size_text(self@.len())),
            self@.len() == 500 ==> (r matches Ok(t) && t@ == ctc_text(self@, ids@)),
    {
        if self.tokens.len() != VOCABULARY_SIZE {
            return Err(ZipformerError::Contract(vocabulary_size_message(self.tokens.len())));
        }
        let mut pieces: Vec<char> = Vec::new();
        let mut i: usize = 0;
        while i < ids.len()
            invariant
                i <= ids.len(),
                forall|k: int| 0 <= k < ids@.len() ==> ids@[k] < self.tokens@.len(),
                pieces@ == pieces_of(self.tokens@, kept_ids(ids@.take(i as int))),
            decreases ids.len() - i,
        {
            let id = ids[i];
            let ghost pre = ids@.take(i as int);
            let ghost post = ids@.take(i as int + 1);
            assert(post.drop_last() == pre);
            assert(post.last() == id);
            let repeat = i > 0 && ids[i - 1] == id;
            if repeat {
                assert(post[post.len() - 2] == ids@[i - 1]);
            }
            if !repeat && id != CTC_BLANK_ID {
                let piece = chars_of(self.tokens[id].as_str());
                pieces = concat_chars(pieces, &piece);
                proof {
                    let kp = kept_ids(pre);
                    assert(kept_ids(post) == kp.push(id));
                    assert(kp.push(id).drop_last() == kp);
                }
            }
            i += 1;
        }
        assert(ids@.take(ids@.len() as int) == ids@);
        let mut spaced: Vec<char> = Vec::new();
        let mut k: usize = 0;
        while k < pieces.len()
            invariant
                k <= pieces.len(),
                spaced@ == boundaries_to_spaces(pieces@.take(k as int)),
            decreases pieces.len() - k,
        {
            let c = pieces[k];
            spaced.push(if c == '▁' { ' ' } else { c });
            k += 1;
            assert(boundaries_to_spaces(pieces@.take(k as int)) =~= boundaries_to_spaces(
                pieces@.take(k as int - 1),
            ).push(if pieces@[k as int - 1] == '▁' { ' ' } else { pieces@[k as int - 1] }));
        }
        assert(pieces@.take(pieces@.len() as int) == pieces@);
        let trimmed = trim_chars(&spaced);
        Ok(string_of(&trimmed))
    }
}

/// The contract error for a vocabulary of `found` pieces.
pub open spec fn vocabulary_size_text(found: nat) -> Seq<char> {
    "expected 500 tokens, found "@ + crate::server::decimal(found)
}

/// The contract error for a vocabulary of the wrong size.
fn vocabulary_size_message(found: usize) -> (r: String)
    ensures
        r@ == vocabulary_size_text(found as nat),
{
    let v = concat_chars(chars_of("expected 500 tokens, found "), &crate::server::decimal_chars(
        found as u128,
    ));
    string_of(&v)
}

/// Greedy CTC never emits the blank's piece and never emits a piece twice
/// for one run of equal ids.
pub proof fn law_kept_ids(ids: Seq<usize>)
    ensures
        forall|k: int| 0 <= k < kept_ids(ids).len() ==> kept_ids(ids)[k] != 0,
        kept_ids(ids).len() <= ids.len(),
    decreases ids.len(),
{
    if ids.len() > 0 {
        law_kept_ids(ids.drop_last());
    }
}

// ---------------------------------------------------------------------------
// The token list
// ---------------------------------------------------------------------------

/// Why a token id is not a `usize`, as `str::parse` reports it.
#[derive(Clone, Copy, Debug, PartialEq, Eq, Structural)]
pub enum IdError {
    Empty,
    InvalidDigit,
    PosOverflow,
}

/// The message `ParseIntError` displays for the error.
pub open spec fn id_error_text(e: IdError) -> Seq<char> {
    match e {
        IdError::Empty => "cannot parse integer from empty string"@,
        IdError::InvalidDigit => "invalid digit found in string"@,
        IdError::PosOverflow => "number too large to fit in target type"@,
    }
}

/// The value of an ASCII decimal digit.
pub open spec fn digit_value(c: char) -> nat {
    (c as u32 - '0' as u32) as nat
}

/// Whether `c` is an ASCII decimal digit.
pub open spec fn is_digit(c: char) -> bool {
    '0' <= c && c <= '9'
}

/// The decimal number `acc` followed by the digits `d`, scanned from the
/// left as `str::parse::<usize>` does: the first non-digit is an invalid
/// digit, and a value past `usize::MAX` overflows.
pub open spec fn parse_digits(d: Seq<char>, acc: nat) -> Result<nat, IdError>
    decreases d.len(),
{
    if d.len() == 0 {
        Ok(acc)
    } else if !is_digit(d[0]) {
        Err(IdError::InvalidDigit)
    } else {
        let v = acc * 10 + digit_value(d[0]);
        if v > usize::MAX {
            Err(IdError::PosOverflow)
        } else {
            parse_digits(d.drop_first(), v)
        }
    }
}

/// `str::parse::<usize>`: an optional `+`, then decimal digits.
pub open spec fn parse_usize(s: Seq<char>) -> Result<nat, IdError> {
    if s.len() == 0 {
        Err(IdError::Empty)
    } else if (s[0] == '+' || s[0] == '-') && s.len() == 1 {
        Err(IdError::InvalidDigit)
    } else if s[0] == '+' {
        parse_digits(s.drop_first(), 0)
    } else {
        parse_digits(s, 0)
    }
}

/// The index of the last space of `s`, or -1.
pub open spec fn last_space(s: Seq<char>) -> int
    decreases s.len(),
{
    if s.len() == 0 {
        -1
    } else if s.last() == ' ' {
        s.len() - 1
    } else {
        last_space(s.drop_last())
    }
}

/// The error for a line without an id.
pub open spec fn missing_id_message(line: nat) -> Seq<char> {
    "line "@ + decimal(line) + " is missing a token ID"@
}

/// The error for a line whose id is not a number.
pub open spec fn invalid_id_message(line: nat, e: IdError) -> Seq<char> {
    "line "@ + decimal(line) + " has an invalid token ID: "@ + id_error_text(e)
}

/// The error for an id given twice.
pub open spec fn duplicate_id_message(id: nat) -> Seq<char> {
    "token ID "@ + decimal(id) + " occurs more than once"@
}

/// The token pieces read from the lines of `s` from index `i` on, the line
/// at `i` having number `n` (from 0), into `tokens`: blank lines are
/// skipped; a line is a piece, a space and its id; ids past the vocabulary
/// are ignored; the first malformed line or repeated id is the error.
pub open spec fn read_tokens(
    s: Seq<char>,
    i: int,
    n: nat,
    tokens: Seq<Option<Seq<char>>>,
) -> Result<Seq<Option<Seq<char>>>, Seq<char>>
    decreases s.len() + 1 - i,
{
    if i < 0 || i >= s.len() {
        Ok(tokens)
    } else {
        let end = line_end(s, i);
        let line = trim(s.subrange(i, end));
        proof {
            lemma_line_end(s, i);
        }
        if line.len() == 0 {
            read_tokens(s, end + 1, n + 1, tokens)
        } else {
            let k = last_space(line);
            if k < 0 {
                Err(missing_id_message(n + 1))
            } else {
                match parse_usize(trim(line.skip(k + 1))) {
                    Err(e) => Err(invalid_id_message(n + 1, e)),
                    Ok(id) => if id >= 500 {
                        read_tokens(s, end + 1, n + 1, tokens)
                    } else if tokens[id as int] is Some {
                        Err(duplicate_id_message(id))
                    } else {
                        read_tokens(s, end + 1, n + 1, tokens.update(id as int, Some(line.take(k))))
                    },
                }
            }
        }
    }
}

/// The ids below `hi` that have no piece, ascending.
pub open spec fn missing_ids(tokens: Seq<Option<Seq<char>>>, hi: int) -> Seq<nat>
    decreases hi,
{
    if hi <= 0 {
        seq![]
    } else if tokens[hi - 1] is None {
        missing_ids(tokens, hi - 1).push((hi - 1) as nat)
    } else {
        missing_ids(tokens, hi - 1)
    }
}

/// A list of numbers as `{:?}` prints a `Vec<usize>`.
pub open spec fn debug_list(ns: Seq<nat>) -> Seq<char> {
    "["@ + join(ns.map_values(|n: nat| decimal(n)), ", "@) + "]"@
}

/// What a token list reads as: the 500 pieces by id, or the message of the
/// first problem.
pub open spec fn spec_vocabulary(contents: Seq<char>) -> Result<Seq<Seq<char>>, Seq<char>> {
    match read_tokens(contents, 0, 0, Seq::new(500, |k: int| None::<Seq<char>>)) {
        Err(m) => Err(m),
        Ok(t) => if missing_ids(t, 500).len() > 0 {
            Err("missing token IDs: "@ + debug_list(missing_ids(t, 500)))
        } else {
            Ok(t.map_values(|o: Option<Seq<char>>| o->0))
        },
    }
}

/// The texts of optional strings.
pub open spec fn option_views(v: Seq<Option<String>>) -> Seq<Option<Seq<char>>> {
    v.map_values(|o: Option<String>| match o {
        Some(s) => Some(s@),
        None => None,
    })
}

fn parse_id(s: &[char]) -> (r: Result<usize, IdError>)
    ensures
        match r {
            Ok(x) => parse_usize(s@) == Ok::<nat, IdError>(x as nat),
            Err(e) => parse_usize(s@) == Err::<nat, IdError>(e),
        },
{
    if s.len() == 0 {
        return Err(IdError::Empty);
    }
    if (s[0] == '+' || s[0] == '-') && s.len() == 1 {
        return Err(IdError::InvalidDigit);
    }
    let start: usize = if s[0] == '+' {
        1
    } else {
        0
    };
    let ghost digits = s@.skip(start as int);
    assert(parse_usize(s@) == parse_digits(digits, 0)) by {
        if start == 0 {
            assert(digits == s@);
        } else {
            assert(digits == s@.drop_first());
        }
    }
    let mut acc: usize = 0;
    let mut i: usize = start;
    while i < s.len()
        invariant
            start <= i <= s.len(),
            digits == s@.skip(start as int),
            parse_usize(s@) == parse_digits(digits, 0),
            parse_digits(digits, 0) == parse_digits(s@.skip(i as int), acc as nat),
        decreases s.len() - i,
    {
        let c = s[i];
        assert(s@.skip(i as int)[0] == c);
        assert(s@.skip(i as int).drop_first() == s@.skip(i as int + 1));
        if !('0' <= c && c <= '9') {
            assert(parse_digits(s@.skip(i as int), acc as nat) == Err::<nat, IdError>(
                IdError::InvalidDigit,
            ));
            return Err(IdError::InvalidDigit);
        }
        let d = (c as u32 - '0' as u32) as usize;
        assert(d == digit_value(c));
        let scaled = match acc.checked_mul(10) {
            Some(v) => v,
            None => {
                assert(acc * 10 + d > usize::MAX);
                assert(parse_digits(s@.skip(i as int), acc as nat) == Err::<nat, IdError>(
                    IdError::PosOverflow,
                ));
                return Err(IdError::PosOverflow);
            },
        };
        acc = match scaled.checked_add(d) {
            Some(v) => v,
            None => {
                assert(parse_digits(s@.skip(i as int), acc as nat) == Err::<nat, IdError>(
                    IdError::PosOverflow,
                ));
                return Err(IdError::PosOverflow);
            },
        };
        i += 1;
    }
    assert(s@.skip(i as int).len() == 0);
    Ok(acc)
}

fn id_error_message(e: IdError) -> (r: &'static str)
    ensures
        r@ == id_error_text(e),
{
    match e {
        IdError::Empty => "cannot parse integer from empty string",
        IdError::InvalidDigit => "invalid digit found in string",
        IdError::PosOverflow => "number too large to fit in target type",
    }
}

fn last_space_index(s: &[char]) -> (r: Option<usize>)
    ensures
        r matches Some(k) ==> k < s@.len(),
        match r {
            Some(k) => last_space(s@) == k as int,
            None => last_space(s@) == -1,
        },
{
    let mut k: usize = s.len();
    assert(s@.take(k as int) == s@);
    while k > 0 && s[k - 1] != ' '
        invariant
            k <= s.len(),
            last_space(s@) == last_space(s@.take(k as int)),
        decreases k,
    {
        assert(s@.take(k as int).drop_last() == s@.take(k as int - 1));
        k -= 1;
    }
    if k == 0 {
        None
    } else {
        Some(k - 1)
    }
}

fn subrange_chars(s: &[char], lo: usize, hi: usize) -> (r: Vec<char>)
    requires
        lo <= hi <= s.len(),
    ensures
        r@ == s@.subrange(lo as int, hi as int),
{
    let mut r: Vec<char> = Vec::new();
    let mut i: usize = lo;
    while i < hi
        invariant
            lo <= i <= hi <= s.len(),
            r@ == s@.subrange(lo as int, i as int),
        decreases hi - i,
    {
        r.push(s[i]);
        i += 1;
        assert(s@.subrange(lo as int, i as int) == s@.subrange(lo as int, i as int - 1).push(
            s@[i as int - 1],
        ));
    }
    r
}

fn numbered_message(head: &str, n: usize, tail: &str) -> (r: String)
    ensures
        r@ == head@ + decimal(n as nat) + tail@,
{
    let v = concat_chars(chars_of(head), &decimal_chars(n as u128));
    let v = concat_chars(v, &chars_of(tail));
    string_of(&v)
}

impl TokenVocabulary {
    /// The vocabulary of a token list read from `path`: each non-blank line
    /// is a piece, a space and its id; ids from 500 on are ignored, and every
    /// id below 500 must occur exactly once.
    pub fn from_contents(path: &str, contents: &str) -> (r: Result<Self, ZipformerError>)
        ensures
            match spec_vocabulary(contents@) {
                Ok(t) => r matches Ok(v) && string_views(v@) == t,
                Err(m) => r matches Err(ZipformerError::InvalidTokens { path: p, message })
                    && p@ == path@ && message@ == m,
            },
    {
        let s = chars_of(contents);
        let mut tokens: Vec<Option<String>> = Vec::new();
        let mut k: usize = 0;
        while k < 500
            invariant
                k <= 500,
                tokens@.len() == k,
                forall|j: int| 0 <= j < k ==> tokens@[j] is None,
            decreases 500 - k,
        {
            tokens.push(None);
            k += 1;
        }
        assert(option_views(tokens@) =~= Seq::new(500, |k: int| None::<Seq<char>>));
        let mut i: usize = 0;
        let mut n: usize = 0;
        while i < s.len()
            invariant
                s@ == contents@,
                i <= s.len(),
                n <= i,
                tokens@.len() == 500,
                read_tokens(s@, 0, 0, Seq::new(500, |k: int| None::<Seq<char>>)) == read_tokens(
                    s@,
                    i as int,
                    n as nat,
                    option_views(tokens@),
                ),
            decreases s.len() - i,
        {
            let mut end = i;
            while end < s.len() && s[end] != '\n'
                invariant
                    i <= end <= s.len(),
                    line_end(s@, i as int) == line_end(s@, end as int),
                decreases s.len() - end,
            {
                end += 1;
            }
            proof {
                lemma_line_end(s@, i as int);
                lemma_line_end(s@, end as int);
            }
            assert(line_end(s@, i as int) == end as int);
            let raw = subrange_chars(&s, i, end);
            let line = trim_chars(&raw);
            let ghost tv = option_views(tokens@);
            assert(read_tokens(s@, i as int, n as nat, tv) == if line@.len() == 0 {
                read_tokens(s@, end + 1, (n + 1) as nat, tv)
            } else {
                let k = last_space(line@);
                if k < 0 {
                    Err(missing_id_message((n + 1) as nat))
                } else {
                    match parse_usize(trim(line@.skip(k + 1))) {
                        Err(e) => Err(invalid_id_message((n + 1) as nat, e)),
                        Ok(id) => if id >= 500 {
                            read_tokens(s@, end + 1, (n + 1) as nat, tv)
                        } else if tv[id as int] is Some {
                            Err(duplicate_id_message(id))
                        } else {
                            read_tokens(
                                s@,
                                end + 1,
                                (n + 1) as nat,
                                tv.update(id as int, Some(line@.take(k))),
                            )
                        },
                    }
                }
            });
            if line.len() > 0 {
                let k = match last_space_index(&line) {
                    Some(k) => k,
                    None => {
                        let m = numbered_message("line ", n + 1, " is missing a token ID");
                        return Err(ZipformerError::InvalidTokens { path: path.to_owned(), message: m });
                    },
                };
                let after = subrange_chars(&line, k + 1, line.len());
                assert(after@ == line@.skip(k + 1));
                let id_text = trim_chars(&after);
                match parse_id(&id_text) {
                    Err(e) => {
                        let head = numbered_message("line ", n + 1, " has an invalid token ID: ");
                        let m = concat_chars(chars_of(head.as_str()), &chars_of(id_error_message(e)));
                        return Err(
                            ZipformerError::InvalidTokens { path: path.to_owned(), message: string_of(&m) },
                        );
                    },
                    Ok(id) => {
                        if id < 500 {
                            assert(tv[id as int] == match tokens@[id as int] {
                                Some(t) => Some(t@),
                                None => None::<Seq<char>>,
                            });
                            if tokens[id].is_some() {
                                let m = numbered_message("token ID ", id, " occurs more than once");
                                return Err(
                                    ZipformerError::InvalidTokens { path: path.to_owned(), message: m },
                                );
                            }
                            let piece = subrange_chars(&line, 0, k);
                            assert(piece@ == line@.take(k as int));
                            tokens.set(id, Some(string_of(&piece)));
                            assert(option_views(tokens@) =~= tv.update(id as int, Some(line@.take(k as int))));
                        }
                    },
                }
            }
            if end == s.len() {
                assert(read_tokens(s@, end + 1, (n + 1) as nat, option_views(tokens@)) == Ok::<
                    Seq<Option<Seq<char>>>,
                    Seq<char>,
                >(option_views(tokens@)));
                i = end;
                n = n + 1;
            } else {
                i = end + 1;
                n = n + 1;
            }
        }
        let ghost final_tokens = option_views(tokens@);
        let mut missing: Vec<usize> = Vec::new();
        let mut j: usize = 0;
        while j < 500
            invariant
                j <= 500,
                tokens@.len() == 500,
                final_tokens == option_views(tokens@),
                missing@.map_values(|m: usize| m as nat) == missing_ids(final_tokens, j as int),
            decreases 500 - j,
        {
            let ghost before = missing@;
            if tokens[j].is_none() {
                missing.push(j);
                assert(missing@.map_values(|m: usize| m as nat) =~= before.map_values(
                    |m: usize| m as nat,
                ).push(j as nat));
            }
            j += 1;
        }
        if missing.len() > 0 {
            let mut texts: Vec<Vec<char>> = Vec::new();
            let mut q: usize = 0;
            while q < missing.len()
                invariant
                    q <= missing.len(),
                    views(texts@) == missing@.take(q as int).map_values(|m: usize| decimal(m as nat)),
                decreases missing.len() - q,
            {
                let ghost before = texts@;
                texts.push(decimal_chars(missing[q] as u128));
                assert(views(texts@) =~= views(before).push(decimal(missing@[q as int] as nat)));
                assert(missing@.take(q as int + 1) == missing@.take(q as int).push(missing@[q as int]));
                assert(views(texts@) =~= missing@.take(q as int + 1).map_values(
                    |m: usize| decimal(m as nat),
                ));
                q += 1;
            }
            assert(missing@.take(missing@.len() as int) == missing@);
            assert(missing@.map_values(|m: usize| decimal(m as nat)) =~= missing_ids(
                final_tokens,
                500,
            ).map_values(|n: nat| decimal(n)));
            let joined = join_chars(&texts, &chars_of(", "));
            let v = concat_chars(chars_of("missing token IDs: "), &chars_of("["));
            let v = concat_chars(v, &joined);
            let v = concat_chars(v, &chars_of("]"));
            return Err(
                ZipformerError::InvalidTokens { path: path.to_owned(), message: string_of(&v) },
            );
        }
        let mut out: Vec<String> = Vec::new();
        let mut j: usize = 0;
        while j < 500
            invariant
                j <= 500,
                tokens@.len() == 500,
                final_tokens == option_views(tokens@),
                missing_ids(final_tokens, 500).len() == 0,
                string_views(out@) == final_tokens.take(j as int).map_values(
                    |o: Option<Seq<char>>| o->0,
                ),
            decreases 500 - j,
        {
            proof {
                if final_tokens[j as int] is None {
                    lemma_missing_ids(final_tokens, 500, j as int);
                }
            }
            let ghost before = out@;
            let piece = match &tokens[j] {
                Some(t) => t.clone(),
                None => String::new(),
            };
            out.push(piece);
            assert(final_tokens.take(j as int + 1) == final_tokens.take(j as int).push(
                final_tokens[j as int],
            ));
            assert(string_views(out@) =~= string_views(before).push(final_tokens[j as int]->0));
            j += 1;
        }
        assert(final_tokens.take(500) == final_tokens);
        Ok(TokenVocabulary { tokens: out })
    }
}

proof fn lemma_missing_ids(t: Seq<Option<Seq<char>>>, hi: int, j: int)
    requires
        0 <= j < hi,
        t[j] is None,
    ensures
        missing_ids(t, hi).len() > 0,
    decreases hi,
{
    if j < hi - 1 {
        lemma_missing_ids(t, hi - 1, j);
        if t[hi - 1] is None {
        }
    }
}

proof fn lemma_read_tokens_len(s: Seq<char>, i: int, n: nat, tokens: Seq<Option<Seq<char>>>)
    requires
        tokens.len() == 500,
    ensures
        read_tokens(s, i, n, tokens) matches Ok(t) ==> t.len() == 500,
    decreases s.len() + 1 - i,
{
    if 0 <= i < s.len() {
        let end = line_end(s, i);
        lemma_line_end(s, i);
        let line = trim(s.subrange(i, end));
        let k = last_space(line);
        lemma_read_tokens_len(s, end + 1, n + 1, tokens);
        if line.len() > 0 && k >= 0 {
            if let Ok(id) = parse_usize(trim(line.skip(k + 1))) {
                if id < 500 {
                    lemma_read_tokens_len(s, end + 1, n + 1, tokens.update(id as int, Some(line.take(k))));
                }
            }
        }
    }
}

/// A token list that reads without error yields exactly one piece for each
/// of the 500 ids of the output vocabulary.
pub proof fn law_vocabulary_size(contents: Seq<char>)
    ensures
        spec_vocabulary(contents) matches Ok(t) ==> t.len() == 500,
{
    lemma_read_tokens_len(contents, 0, 0, Seq::new(500, |k: int| None::<Seq<char>>));
}

} // verus!
