//! The cue registry: the mapping from MIDI note numbers to cue descriptors,
//! built once at startup from configuration rows and read-only afterwards.
//!
//! A configuration row is a list of text fields: cue id, title, source
//! reference, nominal volume and cue class, in that order. The embedding
//! program reads the configuration file; this module parses the fields and
//! builds the registry. A malformed numeric field or class tag is a fatal
//! configuration error — playback behaviour for such a cue would be
//! undefined — while a row with too few fields is skipped and the remaining
//! rows still load.

use vstd::prelude::*;

use crate::player::BGMType;

verus! {

/// A fatal error while loading the registry, reported before any event
/// processing begins.
#[derive(Clone, Copy, PartialEq, Eq, Structural, Debug)]
pub enum ConfigError {
    /// The cue id field is not a decimal numeral that fits a MIDI note byte.
    BadCueId,
    /// The volume field is not a decimal numeral.
    BadVolume,
    /// The volume field parses but lies outside the nominal range (0, 1].
    VolumeOutOfRange,
    /// The class field is none of the known cue class tags.
    BadClass,
}

/// Whether `c` is a decimal digit.
pub open spec fn is_digit(c: char) -> bool {
    48 <= c as int <= 57
}

/// The numeric value of a digit character.
pub open spec fn digit_val(c: char) -> int {
    c as int - 48
}

/// Whether every character of `s` is a decimal digit.
pub open spec fn all_digits(s: Seq<char>) -> bool {
    forall|i: int| 0 <= i < s.len() ==> is_digit(s[i])
}

/// The value of a digit string read in base ten.
pub open spec fn digits_val(s: Seq<char>) -> int
    decreases s.len(),
{
    if s.len() == 0 {
        0
    } else {
        digits_val(s.drop_last()) * 10 + digit_val(s.last())
    }
}

/// A digit string denotes a value of at least zero.
pub proof fn lemma_digits_val_nonneg(s: Seq<char>)
    requires
        all_digits(s),
    ensures
        digits_val(s) >= 0,
    decreases s.len(),
{
    if s.len() > 0 {
        assert(all_digits(s.drop_last()));
        lemma_digits_val_nonneg(s.drop_last());
    }
}

/// The cue id field read as a MIDI note number: meaningful only when the
/// field is a non-empty digit string whose value fits in a byte.
pub open spec fn parse_u8_spec(s: Seq<char>) -> Option<u8> {
    if s.len() > 0 && all_digits(s) && digits_val(s) <= 255 {
        Option::Some(digits_val(s) as u8)
    } else {
        Option::None
    }
}

/// Reads a cue id field. Returns the note number exactly when the field is a
/// non-empty string of decimal digits denoting a value of at most 255.
pub fn parse_cue_id(s: &str) -> (r: Option<u8>)
    ensures
        r == parse_u8_spec(s@),
{
    let n = s.unicode_len();
    if n == 0 {
        return None;
    }
    let mut i: usize = 0;
    let mut acc: u32 = 0;
    let mut over: bool = false;
    while i < n
        invariant
            n == s@.len(),
            i <= n,
            all_digits(s@.take(i as int)),
            !over ==> acc == digits_val(s@.take(i as int)) && acc <= 255,
            over ==> digits_val(s@.take(i as int)) > 255,
        decreases n - i,
    {
        let c = s.get_char(i);
        let d = c as u32;
        if d < 48 || d > 57 {
            assert(!is_digit(s@[i as int]));
            return None;
        }
        proof {
            assert(s@.take(i + 1).drop_last() =~= s@.take(i as int));
            assert(s@.take(i + 1).last() == s@[i as int]);
            lemma_digits_val_nonneg(s@.take(i as int));
        }
        if !over {
            let next = acc * 10 + (d - 48);
            if next > 255 {
                over = true;
            } else {
                acc = next;
            }
        }
        i += 1;
    }
    proof {
        assert(s@.take(n as int) =~= s@);
    }
    if over {
        None
    } else {
        Some(acc as u8)
    }
}

/// Index of the first `.` in `s`, or `s.len()` if there is none.
pub open spec fn first_dot(s: Seq<char>) -> int
    decreases s.len(),
{
    if s.len() == 0 {
        0
    } else if s[0] == '.' {
        0
    } else {
        1 + first_dot(s.drop_first())
    }
}

/// `first_dot` points at the first `.`: nothing before it is a dot, and it
/// lies on a dot unless there is none.
pub proof fn lemma_first_dot(s: Seq<char>)
    ensures
        0 <= first_dot(s) <= s.len(),
        forall|j: int| 0 <= j < first_dot(s) ==> s[j] != '.',
        first_dot(s) < s.len() ==> s[first_dot(s)] == '.',
    decreases s.len(),
{
    if s.len() == 0 {
    } else if s[0] == '.' {
    } else {
        lemma_first_dot(s.drop_first());
        assert forall|j: int| 0 <= j < first_dot(s) implies s[j] != '.' by {
            if j > 0 {
                assert(s.drop_first()[j - 1] == s[j]);
            }
        }
        if first_dot(s) < s.len() {
            assert(s.drop_first()[first_dot(s) - 1] == s[first_dot(s)]);
        }
    }
}

/// The digits before the decimal point.
pub open spec fn int_part(s: Seq<char>) -> Seq<char> {
    s.take(first_dot(s))
}

/// The digits after the decimal point, empty if there is no point.
pub open spec fn frac_part(s: Seq<char>) -> Seq<char> {
    if first_dot(s) < s.len() {
        s.skip(first_dot(s) + 1)
    } else {
        Seq::empty()
    }
}

/// Whether `s` is a decimal numeral: digits around at most one decimal
/// point, with at least one digit in all.
pub open spec fn valid_volume(s: Seq<char>) -> bool {
    &&& all_digits(int_part(s))
    &&& all_digits(frac_part(s))
    &&& int_part(s).len() + frac_part(s).len() > 0
}

/// The fractional digits read as hundredths; digits finer than hundredths
/// are truncated.
pub open spec fn frac_hundredths(f: Seq<char>) -> int {
    (if f.len() >= 1 {
        digit_val(f[0]) * 10
    } else {
        0
    }) + (if f.len() >= 2 {
        digit_val(f[1])
    } else {
        0
    })
}

/// The value of a decimal numeral in hundredths, truncated beyond two
/// fractional digits.
pub open spec fn volume_hundredths(s: Seq<char>) -> int {
    digits_val(int_part(s)) * 100 + frac_hundredths(frac_part(s))
}

/// Whether a volume field denotes a nominal volume in (0, 1], measured in
/// hundredths.
pub open spec fn volume_in_range(s: Seq<char>) -> bool {
    1 <= volume_hundredths(s) <= 100
}

/// Position of the first `.` of `s`, or its length if there is none.
fn find_dot(s: &str) -> (r: usize)
    ensures
        r as int == first_dot(s@),
        r <= s@.len(),
{
    let n = s.unicode_len();
    let mut k: usize = 0;
    while k < n
        invariant
            n == s@.len(),
            k <= n,
            forall|j: int| 0 <= j < k ==> s@[j] != '.',
        decreases n - k,
    {
        if s.get_char(k) == '.' {
            proof {
                lemma_first_dot(s@);
            }
            return k;
        }
        k += 1;
    }
    proof {
        lemma_first_dot(s@);
    }
    n
}

/// Reads a nominal volume field into hundredths.
///
/// Returns the value exactly when the field is a decimal numeral denoting a
/// volume in (0, 1]; distinguishes a field that is no numeral at all from
/// one whose value is out of range.
pub fn parse_volume(s: &str) -> (r: Result<u32, ConfigError>)
    ensures
        match r {
            Ok(v) => valid_volume(s@) && volume_in_range(s@) && v == volume_hundredths(s@),
            Err(e) => (e == ConfigError::BadVolume && !valid_volume(s@)) || (e
                == ConfigError::VolumeOutOfRange && valid_volume(s@) && !volume_in_range(s@)),
        },
{
    let n = s.unicode_len();
    let dot = find_dot(s);
    proof {
        lemma_first_dot(s@);
    }
    let mut i: usize = 0;
    let mut acc: u32 = 0;
    let mut over: bool = false;
    while i < dot
        invariant
            n == s@.len(),
            dot as int == first_dot(s@),
            dot <= n,
            i <= dot,
            all_digits(s@.take(i as int)),
            !over ==> acc == digits_val(s@.take(i as int)) && acc <= 200,
            over ==> digits_val(s@.take(i as int)) > 200,
        decreases dot - i,
    {
        let c = s.get_char(i);
        let d = c as u32;
        if d < 48 || d > 57 {
            assert(!is_digit(int_part(s@)[i as int]));
            return Err(ConfigError::BadVolume);
        }
        proof {
            assert(s@.take(i + 1).drop_last() =~= s@.take(i as int));
            assert(s@.take(i + 1).last() == s@[i as int]);
            lemma_digits_val_nonneg(s@.take(i as int));
        }
        if !over {
            let next = acc * 10 + (d - 48);
            if next > 200 {
                over = true;
            } else {
                acc = next;
            }
        }
        i += 1;
    }
    proof {
        assert(s@.take(dot as int) =~= int_part(s@));
    }
    let mut f1: u32 = 0;
    let mut f2: u32 = 0;
    if dot < n {
        let mut j: usize = dot + 1;
        while j < n
            invariant
                n == s@.len(),
                dot as int == first_dot(s@),
                dot < n,
                dot + 1 <= j <= n,
                forall|t: int| dot + 1 <= t < j ==> is_digit(s@[t]),
                f1 == (if j > dot + 1 {
                    digit_val(s@[dot + 1])
                } else {
                    0
                }),
                f2 == (if j > dot + 2 {
                    digit_val(s@[dot + 2])
                } else {
                    0
                }),
                f1 <= 9,
                f2 <= 9,
            decreases n - j,
        {
            let c = s.get_char(j);
            let d = c as u32;
            if d < 48 || d > 57 {
                assert(!is_digit(frac_part(s@)[j - dot - 1]));
                return Err(ConfigError::BadVolume);
            }
            if j == dot + 1 {
                f1 = d - 48;
            }
            if j == dot + 2 {
                f2 = d - 48;
            }
            j += 1;
        }
        proof {
            assert forall|u: int| 0 <= u < frac_part(s@).len() implies is_digit(
                frac_part(s@)[u],
            ) by {
                assert(frac_part(s@)[u] == s@[u + dot + 1]);
            }
            if frac_part(s@).len() >= 1 {
                assert(frac_part(s@)[0] == s@[dot + 1]);
            }
            if frac_part(s@).len() >= 2 {
                assert(frac_part(s@)[1] == s@[dot + 2]);
            }
        }
    }
    if dot == 0 && (dot + 1 >= n) {
        assert(int_part(s@).len() + frac_part(s@).len() == 0);
        return Err(ConfigError::BadVolume);
    }
    assert(valid_volume(s@));
    proof {
        lemma_digits_val_nonneg(int_part(s@));
    }
    if over {
        return Err(ConfigError::VolumeOutOfRange);
    }
    let v = acc * 100 + f1 * 10 + f2;
    assert(v == volume_hundredths(s@));
    if v == 0 || v > 100 {
        return Err(ConfigError::VolumeOutOfRange);
    }
    Ok(v)
}

/// Whether two string slices hold the same characters.
pub fn str_eq(a: &str, b: &str) -> (r: bool)
    ensures
        r == (a@ == b@),
{
    let na = a.unicode_len();
    let nb = b.unicode_len();
    if na != nb {
        return false;
    }
    let mut i: usize = 0;
    while i < na
        invariant
            na == a@.len(),
            nb == b@.len(),
            na == nb,
            i <= na,
            forall|j: int| 0 <= j < i ==> a@[j] == b@[j],
        decreases na - i,
    {
        if a.get_char(i) != b.get_char(i) {
            return false;
        }
        i += 1;
    }
    proof {
        assert(a@ =~= b@);
    }
    true
}

/// The cue class a class field denotes, or the error for an unknown tag.
pub open spec fn bgm_type_spec(s: Seq<char>) -> Result<BGMType, ConfigError> {
    if s == "BGM"@ {
        Result::Ok(BGMType::BGM)
    } else if s == "ShortSE"@ {
        Result::Ok(BGMType::ShortSE)
    } else if s == "LongSE"@ {
        Result::Ok(BGMType::LongSE)
    } else {
        Result::Err(ConfigError::BadClass)
    }
}

/// Reads a cue class field: exactly the three known tags are accepted, and
/// any other tag is the fatal `BadClass` error.
pub fn parse_bgm_type(s: &str) -> (r: Result<BGMType, ConfigError>)
    ensures
        r == bgm_type_spec(s@),
{
    if str_eq(s, "BGM") {
        Ok(BGMType::BGM)
    } else if str_eq(s, "ShortSE") {
        Ok(BGMType::ShortSE)
    } else if str_eq(s, "LongSE") {
        Ok(BGMType::LongSE)
    } else {
        Err(ConfigError::BadClass)
    }
}

/// One cue's descriptor, immutable once the registry is built.
pub struct Cue {
    /// MIDI note number that triggers the cue, unique within a registry.
    pub id: u8,
    /// Human-readable name.
    pub title: String,
    /// Reference to the audio content, opaque to this library.
    pub source: String,
    /// Nominal volume in hundredths, in (0, 1] as loaded.
    pub volume: u32,
    /// How the cue reacts to key-down and key-up.
    pub class: BGMType,
}

/// Mathematical content of one cue descriptor.
#[verifier::ext_equal]
pub struct CueModel {
    pub id: u8,
    pub title: Seq<char>,
    pub source: Seq<char>,
    pub volume: u32,
    pub class: BGMType,
}

impl View for Cue {
    type V = CueModel;

    open spec fn view(&self) -> CueModel {
        CueModel {
            id: self.id,
            title: self.title@,
            source: self.source@,
            volume: self.volume,
            class: self.class,
        }
    }
}

/// Index of the first cue with the given id, if any.
pub open spec fn find_cue(cs: Seq<CueModel>, id: u8) -> Option<int>
    decreases cs.len(),
{
    if cs.len() == 0 {
        Option::None
    } else if cs[0].id == id {
        Option::Some(0)
    } else {
        match find_cue(cs.drop_first(), id) {
            Option::Some(i) => Option::Some(i + 1),
            Option::None => Option::None,
        }
    }
}

/// What `find_cue` returns: the first index holding the id, or nothing when
/// no index holds it.
pub proof fn lemma_find_cue(cs: Seq<CueModel>, id: u8)
    ensures
        match find_cue(cs, id) {
            Option::Some(i) => 0 <= i < cs.len() && cs[i].id == id && (forall|j: int|
                0 <= j < i ==> cs[j].id != id),
            Option::None => forall|j: int| 0 <= j < cs.len() ==> cs[j].id != id,
        },
    decreases cs.len(),
{
    if cs.len() > 0 && cs[0].id != id {
        lemma_find_cue(cs.drop_first(), id);
        assert forall|j: int| 0 <= j < cs.len() && j > 0 implies cs[j]
            == cs.drop_first()[j - 1] by {}
    }
}

/// Inserting a cue: a cue with the same id is replaced in place, otherwise
/// the new cue is appended. Later configuration rows thus win over earlier
/// ones, and ids stay unique.
pub open spec fn registry_insert(cs: Seq<CueModel>, c: CueModel) -> Seq<CueModel> {
    match find_cue(cs, c.id) {
        Option::Some(i) => cs.update(i, c),
        Option::None => cs.push(c),
    }
}

/// What one configuration row contributes to the registry.
pub enum RowOutcome {
    /// The row has too few fields and is skipped; the remaining rows still
    /// load.
    Skip,
    /// The row is malformed in a way that makes the whole load fail.
    Fatal(ConfigError),
    /// The row describes one cue.
    Parsed(CueModel),
}

/// Parses one row of fields: cue id, title, source, nominal volume, class.
pub open spec fn parse_row_spec(row: Seq<Seq<char>>) -> RowOutcome {
    if row.len() < 5 {
        RowOutcome::Skip
    } else if parse_u8_spec(row[0]) is None {
        RowOutcome::Fatal(ConfigError::BadCueId)
    } else if !valid_volume(row[3]) {
        RowOutcome::Fatal(ConfigError::BadVolume)
    } else if !volume_in_range(row[3]) {
        RowOutcome::Fatal(ConfigError::VolumeOutOfRange)
    } else if bgm_type_spec(row[4]) is Err {
        RowOutcome::Fatal(ConfigError::BadClass)
    } else {
        RowOutcome::Parsed(
            CueModel {
                id: parse_u8_spec(row[0])->Some_0,
                title: row[1],
                source: row[2],
                volume: volume_hundredths(row[3]) as u32,
                class: bgm_type_spec(row[4])->Ok_0,
            },
        )
    }
}

/// Folds the rows into a registry, starting from the cues already loaded.
pub open spec fn build_from(acc: Seq<CueModel>, rows: Seq<Seq<Seq<char>>>) -> Result<
    Seq<CueModel>,
    ConfigError,
>
    decreases rows.len(),
{
    if rows.len() == 0 {
        Result::Ok(acc)
    } else {
        match parse_row_spec(rows[0]) {
            RowOutcome::Skip => build_from(acc, rows.drop_first()),
            RowOutcome::Fatal(e) => Result::Err(e),
            RowOutcome::Parsed(c) => build_from(registry_insert(acc, c), rows.drop_first()),
        }
    }
}

/// The registry a list of configuration rows denotes.
pub open spec fn build_registry_spec(rows: Seq<Seq<Seq<char>>>) -> Result<
    Seq<CueModel>,
    ConfigError,
> {
    build_from(Seq::empty(), rows)
}

/// Whether no two cues share an id.
pub open spec fn cue_ids_unique(cs: Seq<CueModel>) -> bool {
    forall|i: int, j: int|
        0 <= i < cs.len() && 0 <= j < cs.len() && i != j ==> cs[i].id != cs[j].id
}

/// `registry_insert` keeps ids unique.
pub proof fn lemma_registry_insert_unique(cs: Seq<CueModel>, c: CueModel)
    requires
        cue_ids_unique(cs),
    ensures
        cue_ids_unique(registry_insert(cs, c)),
{
    lemma_find_cue(cs, c.id);
    match find_cue(cs, c.id) {
        Option::Some(i) => {
            assert forall|a: int, b: int|
                0 <= a < cs.len() && 0 <= b < cs.len() && a != b implies registry_insert(cs, c)[a].id
                != registry_insert(cs, c)[b].id by {}
        },
        Option::None => {},
    }
}

/// The mapping from cue ids to cue descriptors, immutable after loading.
pub struct CueRegistry {
    /// The cues, each id occurring once.
    pub cues: Vec<Cue>,
}

impl View for CueRegistry {
    type V = Seq<CueModel>;

    open spec fn view(&self) -> Seq<CueModel> {
        self.cues@.map_values(|c: Cue| c@)
    }
}

/// Index of the first cue of `cues` with the given id, if any.
fn find_cue_index(cues: &Vec<Cue>, id: u8) -> (r: Option<usize>)
    ensures
        match r {
            Option::Some(i) => find_cue(cues@.map_values(|c: Cue| c@), id) == Option::Some(i as int),
            Option::None => find_cue(cues@.map_values(|c: Cue| c@), id) is None,
        },
{
    let ghost mapped = cues@.map_values(|c: Cue| c@);
    let mut i: usize = 0;
    while i < cues.len()
        invariant
            i <= cues@.len(),
            mapped == cues@.map_values(|c: Cue| c@),
            forall|j: int| 0 <= j < i ==> (#[trigger] mapped[j]).id != id,
        decreases cues@.len() - i,
    {
        if cues[i].id == id {
            proof {
                lemma_find_cue(mapped, id);
                assert(mapped[i as int] == cues@[i as int]@);
                let fc = find_cue(mapped, id);
                if fc is Some {
                    let k = fc->Some_0;
                    if k < i {
                        assert(mapped[k].id != id);
                    }
                    if k > i {
                        assert(mapped[i as int].id != id);
                    }
                } else {
                    assert(mapped[i as int].id != id);
                }
            }
            return Some(i);
        }
        assert(mapped[i as int] == cues@[i as int]@);
        i += 1;
    }
    proof {
        lemma_find_cue(mapped, id);
    }
    None
}

impl CueRegistry {
    /// No two cues share an id.
    pub open spec fn wf(&self) -> bool {
        cue_ids_unique(self@)
    }

    /// An empty registry.
    pub fn new() -> (r: CueRegistry)
        ensures
            r@ =~= Seq::<CueModel>::empty(),
            r.wf(),
    {
        CueRegistry { cues: Vec::new() }
    }

    /// Builds the registry from configuration rows, each a list of text
    /// fields: cue id, title, source, nominal volume, class.
    ///
    /// Rows with fewer than five fields are skipped; a malformed id, volume
    /// or class tag makes the whole load fail with the matching error; a row
    /// repeating an id replaces the earlier cue.
    pub fn from_rows(rows: &Vec<Vec<String>>) -> (r: Result<CueRegistry, ConfigError>)
        ensures
            match r {
                Ok(reg) => build_registry_spec(rows.deep_view()) == Result::<
                    Seq<CueModel>,
                    ConfigError,
                >::Ok(reg@) && reg.wf(),
                Err(e) => build_registry_spec(rows.deep_view()) == Result::<
                    Seq<CueModel>,
                    ConfigError,
                >::Err(e),
            },
    {
        let ghost all_rows: Seq<Seq<Seq<char>>> = rows.deep_view();
        let mut cues: Vec<Cue> = Vec::new();
        let mut i: usize = 0;
        proof {
            assert(cues@.map_values(|c: Cue| c@) =~= Seq::<CueModel>::empty());
            assert(all_rows.skip(0) =~= all_rows);
        }
        while i < rows.len()
            invariant
                i <= rows@.len(),
                all_rows == rows.deep_view(),
                all_rows.len() == rows@.len(),
                build_registry_spec(all_rows) == build_from(
                    cues@.map_values(|c: Cue| c@),
                    all_rows.skip(i as int),
                ),
                cue_ids_unique(cues@.map_values(|c: Cue| c@)),
            decreases rows@.len() - i,
        {
            let ghost acc = cues@.map_values(|c: Cue| c@);
            let ghost rest = all_rows.skip(i as int);
            proof {
                assert(rest.len() == all_rows.len() - i);
                assert(rest[0] == all_rows[i as int]);
                assert(rest.drop_first() =~= all_rows.skip(i + 1));
                assert(all_rows[i as int] == rows@[i as int].deep_view());
                assert(rows@[i as int].deep_view().len() == rows@[i as int]@.len());
                assert forall|k: int| 0 <= k < rows@[i as int]@.len() implies rows@[i as int].deep_view()[k]
                    == rows@[i as int]@[k]@ by {}
            }
            let row = &rows[i];
            if row.len() < 5 {
                i += 1;
            } else {
                assert(parse_row_spec(rest[0]) matches RowOutcome::Skip ==> false);
                let id = match parse_cue_id(row[0].as_str()) {
                    Some(v) => v,
                    None => {
                        return Err(ConfigError::BadCueId);
                    },
                };
                let vol = match parse_volume(row[3].as_str()) {
                    Ok(v) => v,
                    Err(e) => {
                        return Err(e);
                    },
                };
                let class = match parse_bgm_type(row[4].as_str()) {
                    Ok(c) => c,
                    Err(e) => {
                        return Err(e);
                    },
                };
                let title = row[1].as_str().to_owned();
                let source = row[2].as_str().to_owned();
                let cue = Cue { id, title, source, volume: vol, class };
                proof {
                    assert(parse_row_spec(rest[0]) == RowOutcome::Parsed(cue@));
                    lemma_registry_insert_unique(acc, cue@);
                }
                match find_cue_index(&cues, id) {
                    Some(j) => {
                        proof {
                            lemma_find_cue(acc, id);
                        }
                        let slot = &mut cues[j];
                        *slot = cue;
                        proof {
                            assert(cues@.map_values(|c: Cue| c@) =~= acc.update(j as int, cue@));
                        }
                    },
                    None => {
                        cues.push(cue);
                        proof {
                            assert(cues@.map_values(|c: Cue| c@) =~= acc.push(cue@));
                        }
                    },
                }
                proof {
                    assert(cues@.map_values(|c: Cue| c@) =~= registry_insert(acc, cue@));
                }
                i += 1;
            }
        }
        proof {
            assert(all_rows.skip(i as int).len() == 0);
            assert(build_registry_spec(all_rows) == Result::<Seq<CueModel>, ConfigError>::Ok(
                cues@.map_values(|c: Cue| c@),
            ));
        }
        Ok(CueRegistry { cues })
    }

    /// Looks a cue up by its id.
    pub fn lookup(&self, id: u8) -> (r: Option<&Cue>)
        ensures
            match r {
                Option::Some(c) => find_cue(self@, id) matches Option::Some(i) && c@ == self@[i],
                Option::None => find_cue(self@, id) is None,
            },
    {
        match find_cue_index(&self.cues, id) {
            Some(i) => {
                proof {
                    lemma_find_cue(self@, id);
                    assert(self@[i as int] == self.cues@[i as int]@);
                }
                Some(&self.cues[i])
            },
            None => None,
        }
    }

    /// How many cues are loaded.
    pub fn len(&self) -> (n: usize)
        ensures
            n == self@.len(),
    {
        self.cues.len()
    }
}

} // verus!
