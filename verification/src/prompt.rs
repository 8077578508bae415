//! Prompt dialects: tables from the document's serialized enum names (and a
//! fixed set of connective words) to the phrases a target model reads, plus
//! the text helpers prompts are assembled with.
use vstd::prelude::*;

use crate::names::{
    camera_rig_keys, camera_rig_key_list, composition_strategy_keys, composition_strategy_key_list,
    coverage_role_keys, coverage_role_key_list, depth_role_keys, depth_role_key_list, horizontal_angle_keys,
    horizontal_angle_key_list, light_kind_keys, light_kind_key_list, light_role_keys, light_role_key_list,
    operation_keys, operation_key_list, phrase_keys, phrase_key_list, screen_region_keys, screen_region_key_list,
    shot_purpose_keys, shot_purpose_key_list, shot_size_keys, shot_size_key_list, transition_keys,
    transition_key_list, vertical_angle_keys, vertical_angle_key_list,
};
use crate::palette::NamedColor;
use crate::text::{chars_of, owned, push_str, replace_all, replaced, string_of, string_views};

verus! {

broadcast use {vstd::seq_lib::group_seq_properties, crate::diagnostic::lemma_concat_regroup};

/// `serde_json::Error`, carried opaquely inside a dialect error.
#[verifier::external_type_specification]
#[verifier::external_body]
pub struct OpaqueJsonError(serde_json::Error);

/// `serde_json::Error`'s `Display` text. Nothing is stated of it.
#[verifier::external_body]
fn json_error_text(error: &serde_json::Error) -> String {
    error.to_string()
}

/// A phrase table: serialized name to phrase, each name once.
pub type PhraseTable = Vec<(String, String)>;

/// A dialect: one phrase table per enumeration the prompts mention, one for
/// camera-operation keys, and one for connective words.
#[derive(Debug, Clone)]
pub struct PromptDialect {
    pub name: String,
    pub description: String,
    pub shot_size: PhraseTable,
    pub horizontal_angle: PhraseTable,
    pub vertical_angle: PhraseTable,
    pub coverage_role: PhraseTable,
    pub camera_rig: PhraseTable,
    pub shot_purpose: PhraseTable,
    pub composition_strategy: PhraseTable,
    pub screen_region: PhraseTable,
    pub depth_role: PhraseTable,
    pub transition: PhraseTable,
    pub operation: PhraseTable,
    pub light_kind: PhraseTable,
    pub light_role: PhraseTable,
    pub phrases: PhraseTable,
}

/// Why a dialect was refused.
#[derive(Debug)]
pub enum DialectError {
    Parse(serde_json::Error),
    /// `(table, missing keys)` for every incomplete table.
    Incomplete(Vec<(String, Vec<String>)>),
}

/// Index of the first of the first `n` entries with key `key`.
pub open spec fn entry_index(table: Seq<(String, String)>, key: Seq<char>, n: nat) -> Option<int>
    decreases n,
{
    if n == 0 {
        None
    } else {
        match entry_index(table, key, (n - 1) as nat) {
            Some(i) => Some(i),
            None => if table[n - 1].0@ == key { Some(n - 1) } else { None },
        }
    }
}

/// The phrase `table` maps `key` to, if any.
pub open spec fn table_get(table: Seq<(String, String)>, key: Seq<char>) -> Option<Seq<char>> {
    match entry_index(table, key, table.len()) {
        Some(i) => Some(table[i].1@),
        None => None,
    }
}

/// The phrase for `key`, or the key with underscores read as spaces.
pub open spec fn phrase_text(table: Seq<(String, String)>, key: Seq<char>) -> Seq<char> {
    match table_get(table, key) {
        Some(phrase) => phrase,
        None => replace_all(key, "_"@, " "@),
    }
}

proof fn lemma_entry_index_stable(table: Seq<(String, String)>, key: Seq<char>, m: nat, n: nat)
    requires
        m <= n <= table.len(),
        entry_index(table, key, m) is Some,
    ensures
        entry_index(table, key, n) == entry_index(table, key, m),
    decreases n - m,
{
    if n > m {
        lemma_entry_index_stable(table, key, m, (n - 1) as nat);
    }
}

/// Every key of `table` names one entry only, as in a map.
pub open spec fn keys_unique(table: Seq<(String, String)>) -> bool {
    forall|i: int, j: int| 0 <= i < j < table.len() ==> #[trigger] table[i].0@ != #[trigger] table[j].0@
}

proof fn lemma_entry_index_found(table: Seq<(String, String)>, key: Seq<char>, n: nat)
    requires
        n <= table.len(),
    ensures
        match entry_index(table, key, n) {
            Some(i) => 0 <= i < n && table[i].0@ == key,
            None => forall|j: int| 0 <= j < n ==> #[trigger] table[j].0@ != key,
        },
    decreases n,
{
    if n > 0 {
        lemma_entry_index_found(table, key, (n - 1) as nat);
    }
}

/// In a table whose keys are unique, each entry is what its key looks up,
/// and a key with no entry looks up nothing.
pub proof fn lemma_unique_lookup(table: Seq<(String, String)>, key: Seq<char>)
    requires
        keys_unique(table),
    ensures
        forall|i: int| 0 <= i < table.len() && #[trigger] table[i].0@ == key ==> table_get(table, key) == Some(
            table[i].1@,
        ),
        (forall|i: int| 0 <= i < table.len() ==> #[trigger] table[i].0@ != key) ==> table_get(table, key) is None,
{
    lemma_entry_index_found(table, key, table.len());
    assert forall|i: int| 0 <= i < table.len() && #[trigger] table[i].0@ == key implies table_get(table, key) == Some(
        table[i].1@,
    ) by {
        let j = entry_index(table, key, table.len())->0;
        if j < i {
            assert(table[j].0@ != table[i].0@);
        } else if i < j {
            assert(table[i].0@ != table[j].0@);
        }
    }
}

/// Sets the phrase of `key` in `table`, as a map's insert does: an entry
/// for `key` has its phrase replaced, otherwise a new entry is added at the
/// end. Keys stay unique, `key` now looks up `phrase`, and every other key
/// looks up what it did.
pub fn insert_phrase(table: &mut PhraseTable, key: String, phrase: String)
    requires
        keys_unique(old(table)@),
    ensures
        keys_unique(final(table)@),
        table_get(final(table)@, key@) == Some(phrase@),
        forall|k: Seq<char>| k != key@ ==> #[trigger] table_get(final(table)@, k) == table_get(old(table)@, k),
{
    let ghost old_table = table@;
    let ghost key_view = key@;
    let ghost phrase_view = phrase@;
    let mut i: usize = 0;
    while i < table.len()
        invariant
            i <= table.len(),
            table@ == old_table,
            old(table)@ == old_table,
            keys_unique(old_table),
            key@ == key_view,
            forall|j: int| 0 <= j < i ==> #[trigger] table@[j].0@ != key_view,
        decreases table.len() - i,
    {
        if table[i].0 == key {
            assert(old_table[i as int].0@ == key_view);
            table.set(i, (key, phrase));
            proof {
                assert forall|a: int, b: int| 0 <= a < b < table@.len() implies #[trigger] table@[a].0@
                    != #[trigger] table@[b].0@ by {
                    assert(old_table[a].0@ != old_table[b].0@);
                }
                lemma_unique_lookup(table@, key_view);
                assert(table@[i as int].0@ == key_view);
                assert forall|k: Seq<char>| k != key_view implies #[trigger] table_get(table@, k) == table_get(
                    old_table,
                    k,
                ) by {
                    lemma_unique_lookup(table@, k);
                    lemma_unique_lookup(old_table, k);
                    lemma_entry_index_found(old_table, k, old_table.len());
                    match entry_index(old_table, k, old_table.len()) {
                        Some(j) => {
                            assert(table@[j].0@ == k);
                        },
                        None => {
                            assert forall|j: int| 0 <= j < table@.len() implies #[trigger] table@[j].0@ != k by {
                                if j != i {
                                    assert(old_table[j].0@ != k);
                                }
                            }
                        },
                    }
                }
            }
            return;
        }
        i = i + 1;
    }
    table.push((key, phrase));
    proof {
        assert forall|a: int, b: int| 0 <= a < b < table@.len() implies #[trigger] table@[a].0@
            != #[trigger] table@[b].0@ by {
            if b < old_table.len() {
                assert(old_table[a].0@ != old_table[b].0@);
            }
        }
        lemma_unique_lookup(table@, key_view);
        assert(table@[old_table.len() as int].0@ == key_view);
        assert forall|k: Seq<char>| k != key_view implies #[trigger] table_get(table@, k) == table_get(old_table, k) by {
            lemma_unique_lookup(table@, k);
            lemma_unique_lookup(old_table, k);
            lemma_entry_index_found(old_table, k, old_table.len());
            match entry_index(old_table, k, old_table.len()) {
                Some(j) => {
                    assert(table@[j].0@ == k);
                },
                None => {
                    assert forall|j: int| 0 <= j < table@.len() implies #[trigger] table@[j].0@ != k by {
                        if j < old_table.len() {
                            assert(old_table[j].0@ != k);
                        }
                    }
                },
            }
        }
    }
}

/// Looks `key` up in `table`.
pub fn lookup(table: &PhraseTable, key: &str) -> (phrase: Option<String>)
    ensures
        match phrase {
            Some(p) => table_get(table@, key@) == Some(p@),
            None => table_get(table@, key@) is None,
        },
{
    let wanted = owned(key);
    let mut i: usize = 0;
    while i < table.len()
        invariant
            i <= table.len(),
            wanted@ == key@,
            entry_index(table@, key@, i as nat) is None,
        decreases table.len() - i,
    {
        if table[i].0 == wanted {
            proof { lemma_entry_index_stable(table@, key@, (i + 1) as nat, table@.len()); }
            return Some(table[i].1.clone());
        }
        i = i + 1;
    }
    None
}

/// The keys of `keys` that `table` lacks, in order.
pub open spec fn missing_keys(table: Seq<(String, String)>, keys: Seq<Seq<char>>, n: nat) -> Seq<Seq<char>>
    decreases n,
{
    if n == 0 {
        Seq::empty()
    } else {
        missing_keys(table, keys, (n - 1) as nat) + if table_get(table, keys[n - 1]) is None {
            seq![keys[n - 1]]
        } else {
            Seq::empty()
        }
    }
}

/// A table's entry in the completeness report: its name and missing keys,
/// when some are missing.
pub open spec fn table_gaps(name: Seq<char>, table: Seq<(String, String)>, keys: Seq<Seq<char>>) -> Seq<
    (Seq<char>, Seq<Seq<char>>),
> {
    let missing = missing_keys(table, keys, keys.len());
    if missing.len() > 0 {
        seq![(name, missing)]
    } else {
        Seq::empty()
    }
}

/// Every table's gaps, in the order the tables are checked.
pub open spec fn dialect_gaps(d: PromptDialect) -> Seq<(Seq<char>, Seq<Seq<char>>)> {
    table_gaps("shot_size"@, d.shot_size@, shot_size_keys()) + table_gaps(
        "horizontal_angle"@,
        d.horizontal_angle@,
        horizontal_angle_keys(),
    ) + table_gaps("vertical_angle"@, d.vertical_angle@, vertical_angle_keys()) + table_gaps(
        "coverage_role"@,
        d.coverage_role@,
        coverage_role_keys(),
    ) + table_gaps("camera_rig"@, d.camera_rig@, camera_rig_keys()) + table_gaps(
        "shot_purpose"@,
        d.shot_purpose@,
        shot_purpose_keys(),
    ) + table_gaps("composition_strategy"@, d.composition_strategy@, composition_strategy_keys()) + table_gaps(
        "screen_region"@,
        d.screen_region@,
        screen_region_keys(),
    ) + table_gaps("depth_role"@, d.depth_role@, depth_role_keys()) + table_gaps(
        "transition"@,
        d.transition@,
        transition_keys(),
    ) + table_gaps("light_kind"@, d.light_kind@, light_kind_keys()) + table_gaps(
        "light_role"@,
        d.light_role@,
        light_role_keys(),
    ) + table_gaps("operation"@, d.operation@, operation_keys()) + table_gaps(
        "phrases"@,
        d.phrases@,
        phrase_keys(),
    )
}

/// The text views of a completeness report.
pub open spec fn gaps_view(report: Seq<(String, Vec<String>)>) -> Seq<(Seq<char>, Seq<Seq<char>>)> {
    report.map_values(|entry: (String, Vec<String>)| (entry.0@, string_views(entry.1@)))
}

fn check_table(
    name: &str,
    table: &PhraseTable,
    keys: &Vec<&'static str>,
    report: &mut Vec<(String, Vec<String>)>,
)
    ensures
        gaps_view(final(report)@) == gaps_view(old(report)@) + table_gaps(
            name@,
            table@,
            keys@.map_values(|k: &str| k@),
        ),
{
    let ghost key_views = keys@.map_values(|k: &str| k@);
    let mut missing: Vec<String> = Vec::new();
    let mut i: usize = 0;
    while i < keys.len()
        invariant
            i <= keys.len(),
            key_views == keys@.map_values(|k: &str| k@),
            string_views(missing@) == missing_keys(table@, key_views, i as nat),
        decreases keys.len() - i,
    {
        let ghost before = missing@;
        let key = keys[i];
        assert(key_views[i as int] == key@);
        match lookup(table, key) {
            None => {
                missing.push(owned(key));
                assert(string_views(missing@) =~= string_views(before).push(key@));
            },
            Some(_) => {},
        }
        i = i + 1;
    }
    if missing.len() > 0 {
        let ghost before = report@;
        report.push((owned(name), missing));
        assert(gaps_view(report@) =~= gaps_view(before).push((name@, missing_keys(table@, key_views, key_views.len()))));
    }
}

pub open spec fn dialect_error_text(e: DialectError) -> Option<Seq<char>> {
    match e {
        DialectError::Parse(_) => None,
        DialectError::Incomplete(gaps) => Some(incomplete_text(gaps_view(gaps@), gaps@.len())),
    }
}

/// `keys` joined with `", "`.
pub open spec fn comma_joined(keys: Seq<Seq<char>>) -> Seq<char>
    decreases keys.len(),
{
    if keys.len() == 0 {
        Seq::empty()
    } else if keys.len() == 1 {
        keys[0]
    } else {
        comma_joined(keys.drop_last()) + ", "@ + keys.last()
    }
}

/// "dialect is missing phrases:" then ` table[key, key]` per entry.
pub open spec fn incomplete_text(gaps: Seq<(Seq<char>, Seq<Seq<char>>)>, n: nat) -> Seq<char>
    decreases n,
{
    if n == 0 {
        "dialect is missing phrases:"@
    } else {
        incomplete_text(gaps, (n - 1) as nat) + " "@ + gaps[n - 1].0 + "["@ + comma_joined(gaps[n - 1].1) + "]"@
    }
}

fn push_joined(text: &mut String, keys: &Vec<String>)
    ensures
        final(text)@ == old(text)@ + comma_joined(string_views(keys@)),
{
    let ghost views = string_views(keys@);
    let mut i: usize = 0;
    while i < keys.len()
        invariant
            i <= keys.len(),
            views == string_views(keys@),
            text@ == old(text)@ + comma_joined(views.take(i as int)),
        decreases keys.len() - i,
    {
        assert(views.take(i + 1).drop_last() =~= views.take(i as int));
        if i > 0 {
            push_str(text, ", ");
        }
        push_str(text, keys[i].as_str());
        i = i + 1;
    }
    assert(views.take(keys.len() as int) =~= views);
}

impl DialectError {
    /// The error as a sentence; for a parse error, the JSON error's own
    /// text follows the prefix.
    pub fn message(&self) -> (text: String)
        ensures
            match dialect_error_text(*self) {
                Some(t) => text@ == t,
                None => exists|rest: Seq<char>| text@ == "invalid dialect JSON: "@ + rest,
            },
    {
        match self {
            DialectError::Parse(error) => {
                let mut text = owned("invalid dialect JSON: ");
                let detail = json_error_text(error);
                push_str(&mut text, detail.as_str());
                assert(text@ == "invalid dialect JSON: "@ + detail@);
                text
            },
            DialectError::Incomplete(gaps) => {
                let mut text = owned("dialect is missing phrases:");
                let ghost gv = gaps_view(gaps@);
                let mut i: usize = 0;
                while i < gaps.len()
                    invariant
                        i <= gaps.len(),
                        gv == gaps_view(gaps@),
                        text@ == incomplete_text(gv, i as nat),
                    decreases gaps.len() - i,
                {
                    push_str(&mut text, " ");
                    push_str(&mut text, gaps[i].0.as_str());
                    push_str(&mut text, "[");
                    push_joined(&mut text, &gaps[i].1);
                    push_str(&mut text, "]");
                    i = i + 1;
                }
                text
            },
        }
    }
}

impl PromptDialect {
    /// Each of the dialect's tables holds every key once, as the maps it
    /// stands for do; [`insert_phrase`] keeps this, and under it every
    /// lookup gives the one phrase its key names (`lemma_unique_lookup`).
    pub open spec fn has_unique_keys(&self) -> bool {
        &&& keys_unique(self.shot_size@)
        &&& keys_unique(self.horizontal_angle@)
        &&& keys_unique(self.vertical_angle@)
        &&& keys_unique(self.coverage_role@)
        &&& keys_unique(self.camera_rig@)
        &&& keys_unique(self.shot_purpose@)
        &&& keys_unique(self.composition_strategy@)
        &&& keys_unique(self.screen_region@)
        &&& keys_unique(self.depth_role@)
        &&& keys_unique(self.transition@)
        &&& keys_unique(self.operation@)
        &&& keys_unique(self.light_kind@)
        &&& keys_unique(self.light_role@)
        &&& keys_unique(self.phrases@)
    }

    /// Every enumeration value and every connective key the prompts use
    /// must have an entry (possibly empty, meaning "say nothing").
    pub fn check_complete(&self) -> (result: Result<(), DialectError>)
        ensures
            result is Ok <==> dialect_gaps(*self).len() == 0,
            match result {
                Ok(_) => true,
                Err(DialectError::Incomplete(gaps)) => gaps_view(gaps@) == dialect_gaps(*self),
                Err(DialectError::Parse(_)) => false,
            },
    {
        let mut gaps: Vec<(String, Vec<String>)> = Vec::new();
        assert(gaps_view(gaps@) =~= Seq::<(Seq<char>, Seq<Seq<char>>)>::empty());
        check_table("shot_size", &self.shot_size, &shot_size_key_list(), &mut gaps);
        check_table("horizontal_angle", &self.horizontal_angle, &horizontal_angle_key_list(), &mut gaps);
        check_table("vertical_angle", &self.vertical_angle, &vertical_angle_key_list(), &mut gaps);
        check_table("coverage_role", &self.coverage_role, &coverage_role_key_list(), &mut gaps);
        check_table("camera_rig", &self.camera_rig, &camera_rig_key_list(), &mut gaps);
        check_table("shot_purpose", &self.shot_purpose, &shot_purpose_key_list(), &mut gaps);
        check_table("composition_strategy", &self.composition_strategy, &composition_strategy_key_list(), &mut gaps);
        check_table("screen_region", &self.screen_region, &screen_region_key_list(), &mut gaps);
        check_table("depth_role", &self.depth_role, &depth_role_key_list(), &mut gaps);
        check_table("transition", &self.transition, &transition_key_list(), &mut gaps);
        check_table("light_kind", &self.light_kind, &light_kind_key_list(), &mut gaps);
        check_table("light_role", &self.light_role, &light_role_key_list(), &mut gaps);
        check_table("operation", &self.operation, &operation_key_list(), &mut gaps);
        check_table("phrases", &self.phrases, &phrase_key_list(), &mut gaps);
        assert(gaps_view(gaps@) =~= dialect_gaps(*self));
        if gaps.len() == 0 {
            Ok(())
        } else {
            Err(DialectError::Incomplete(gaps))
        }
    }

    /// Phrase for a serialized enum value; falls back to the key with
    /// underscores read as spaces, so a stale dialect degrades to readable
    /// text.
    pub fn phrase(&self, table: &PhraseTable, key: &str) -> (text: String)
        ensures
            text@ == phrase_text(table@, key@),
    {
        match lookup(table, key) {
            Some(phrase) => phrase,
            None => {
                let underscore = chars_of("_");
                let space = chars_of(" ");
                proof { reveal_strlit("_"); }
                string_of(&replaced(&chars_of(key), &underscore, &space))
            },
        }
    }

    /// A connective word.
    pub fn word(&self, key: &str) -> (text: String)
        ensures
            text@ == phrase_text(self.phrases@, key@),
    {
        self.phrase(&self.phrases, key)
    }
}

/// Switches for what a prompt includes.
#[derive(Debug, Clone, Copy, PartialEq, Eq, Structural)]
pub struct PromptOptions {
    /// Append distances, angles, and durations to movement phrases.
    pub include_measurements: bool,
    /// Prefix each prompt with the scene title and dramatic question.
    pub include_scene_context: bool,
    /// Name subjects with their palette colour ("Alice (red)").
    pub include_color_binding: bool,
}

impl PromptOptions {
    /// Everything included.
    pub fn full() -> (options: PromptOptions)
        ensures
            options.include_measurements,
            options.include_scene_context,
            options.include_color_binding,
    {
        PromptOptions { include_measurements: true, include_scene_context: true, include_color_binding: true }
    }
}

/// One shot's prompt.
#[derive(Debug, Clone)]
pub struct ShotPrompt {
    pub scene_id: String,
    pub shot_id: String,
    pub text: String,
}

/// The dialect's colour-binding template with `{name}` and then `{color}`
/// replaced.
pub open spec fn bound_name(template: Seq<char>, name: Seq<char>, color: Seq<char>) -> Seq<char> {
    replace_all(replace_all(template, "{name}"@, name), "{color}"@, color)
}

/// A subject's name bound to its palette colour.
pub fn bind_color(dialect: &PromptDialect, name: &str, color: NamedColor) -> (text: String)
    ensures
        text@ == bound_name(phrase_text(dialect.phrases@, "color_binding"@), name@, color.name@),
{
    let template = dialect.word("color_binding");
    let name_pattern = chars_of("{name}");
    let color_pattern = chars_of("{color}");
    proof {
        reveal_strlit("{name}");
        reveal_strlit("{color}");
    }
    let named = replaced(&chars_of(template.as_str()), &name_pattern, &chars_of(name));
    string_of(&replaced(&named, &color_pattern, &chars_of(color.name)))
}

/// `items` as an English list: `a`, `a and b`, `a, b and c`.
pub open spec fn natural_list(items: Seq<Seq<char>>, and: Seq<char>) -> Seq<char> {
    if items.len() == 0 {
        Seq::empty()
    } else if items.len() == 1 {
        items[0]
    } else {
        comma_joined(items.drop_last()) + " "@ + and + " "@ + items.last()
    }
}

pub fn join_natural(items: &Vec<String>, and: &str) -> (text: String)
    ensures
        text@ == natural_list(string_views(items@), and@),
{
    let ghost views = string_views(items@);
    if items.len() == 0 {
        return String::new();
    }
    if items.len() == 1 {
        return items[0].clone();
    }
    let mut text = String::new();
    let mut i: usize = 0;
    while i + 1 < items.len()
        invariant
            items.len() >= 2,
            i + 1 <= items.len(),
            views == string_views(items@),
            text@ == comma_joined(views.take(i as int)),
        decreases items.len() - i,
    {
        assert(views.take(i + 1).drop_last() =~= views.take(i as int));
        if i > 0 {
            push_str(&mut text, ", ");
        }
        push_str(&mut text, items[i].as_str());
        i = i + 1;
    }
    assert(views.take(i as int) =~= views.drop_last());
    push_str(&mut text, " ");
    push_str(&mut text, and);
    push_str(&mut text, " ");
    push_str(&mut text, items[items.len() - 1].as_str());
    text
}

/// What `char::to_uppercase` yields for `c`, collected into text.
pub uninterp spec fn uppercase_of(c: char) -> Seq<char>;

/// `char::to_uppercase`, collected into a `String`. The result is named
/// `uppercase_of(c)`: Unicode's full case mapping, a function of `c` alone.
#[verifier::external_body]
fn uppercase(c: char) -> (upper: String)
    ensures
        upper@ == uppercase_of(c),
{
    c.to_uppercase().collect::<String>()
}

/// `text` with its first character upper-cased.
pub open spec fn capitalized(text: Seq<char>) -> Seq<char> {
    if text.len() == 0 {
        Seq::empty()
    } else {
        uppercase_of(text[0]) + text.drop_first()
    }
}

pub fn capitalize(text: &str) -> (out: String)
    ensures
        out@ == capitalized(text@),
{
    let chars = chars_of(text);
    if chars.len() == 0 {
        return String::new();
    }
    let mut out = uppercase(chars[0]);
    let mut i: usize = 1;
    while i < chars.len()
        invariant
            1 <= i <= chars.len(),
            chars@ == text@,
            out@ == uppercase_of(chars@[0]) + chars@.subrange(1, i as int),
        decreases chars.len() - i,
    {
        crate::text::push_char(&mut out, chars[i]);
        assert(chars@.subrange(1, i + 1) =~= chars@.subrange(1, i as int).push(chars@[i as int]));
        i = i + 1;
    }
    assert(chars@.subrange(1, chars.len() as int) =~= chars@.drop_first());
    out
}

} // verus!
