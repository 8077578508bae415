//! Deterministic subject colours.
//!
//! Every subject in a scene receives a stable, nameable colour used in all
//! conditioning artifacts and in prompts ("Alice (red)"). Colours come from
//! a curated, mutually distinguishable palette, assigned by the subject's
//! rank among the scene's sorted ids so the result depends only on the
//! document.
use vstd::prelude::*;

use crate::model::Scene;
use crate::order::{increasing, lemma_increasing_unique, strict_total_order};
use crate::validate::{collect_ids, ids};
use crate::text::{chars_less, chars_of, lemma_text_less_irreflexive,
    lemma_text_less_total, lemma_text_less_transitive, push_char, string_of, text_less};

verus! {

broadcast use vstd::seq_lib::group_seq_properties;

#[derive(Debug, Clone, Copy, PartialEq, Eq, Structural)]
pub struct Rgb {
    pub r: u8,
    pub g: u8,
    pub b: u8,
}

/// A palette entry with the English colour word prompts use.
#[derive(Debug, Clone, Copy, PartialEq, Eq)]
pub struct NamedColor {
    pub name: &'static str,
    pub rgb: Rgb,
}

/// Number of base colours before the palette wraps.
pub const PALETTE_LEN: usize = 12;

/// Colour word of palette entry `i` (`i < 12`).
pub open spec fn palette_name(i: int) -> &'static str {
    if i == 0 { "red" } else if i == 1 { "blue" } else if i == 2 { "green" }
    else if i == 3 { "orange" } else if i == 4 { "purple" } else if i == 5 { "cyan" }
    else if i == 6 { "magenta" } else if i == 7 { "yellow" } else if i == 8 { "brown" }
    else if i == 9 { "pink" } else if i == 10 { "teal" } else { "lime" }
}

/// Channels of palette entry `i` (`i < 12`).
pub open spec fn palette_rgb(i: int) -> Rgb {
    if i == 0 { Rgb { r: 220, g: 50, b: 47 } }
    else if i == 1 { Rgb { r: 38, g: 105, b: 220 } }
    else if i == 2 { Rgb { r: 56, g: 160, b: 70 } }
    else if i == 3 { Rgb { r: 235, g: 140, b: 30 } }
    else if i == 4 { Rgb { r: 130, g: 70, b: 190 } }
    else if i == 5 { Rgb { r: 40, g: 175, b: 190 } }
    else if i == 6 { Rgb { r: 200, g: 60, b: 160 } }
    else if i == 7 { Rgb { r: 225, g: 195, b: 40 } }
    else if i == 8 { Rgb { r: 140, g: 90, b: 50 } }
    else if i == 9 { Rgb { r: 240, g: 130, b: 170 } }
    else if i == 10 { Rgb { r: 30, g: 130, b: 120 } }
    else { Rgb { r: 150, g: 200, b: 50 } }
}

fn palette_entry(i: usize) -> (c: NamedColor)
    requires
        i < 12,
    ensures
        c.name == palette_name(i as int),
        c.rgb == palette_rgb(i as int),
{
    if i == 0 { NamedColor { name: "red", rgb: Rgb { r: 220, g: 50, b: 47 } } }
    else if i == 1 { NamedColor { name: "blue", rgb: Rgb { r: 38, g: 105, b: 220 } } }
    else if i == 2 { NamedColor { name: "green", rgb: Rgb { r: 56, g: 160, b: 70 } } }
    else if i == 3 { NamedColor { name: "orange", rgb: Rgb { r: 235, g: 140, b: 30 } } }
    else if i == 4 { NamedColor { name: "purple", rgb: Rgb { r: 130, g: 70, b: 190 } } }
    else if i == 5 { NamedColor { name: "cyan", rgb: Rgb { r: 40, g: 175, b: 190 } } }
    else if i == 6 { NamedColor { name: "magenta", rgb: Rgb { r: 200, g: 60, b: 160 } } }
    else if i == 7 { NamedColor { name: "yellow", rgb: Rgb { r: 225, g: 195, b: 40 } } }
    else if i == 8 { NamedColor { name: "brown", rgb: Rgb { r: 140, g: 90, b: 50 } } }
    else if i == 9 { NamedColor { name: "pink", rgb: Rgb { r: 240, g: 130, b: 170 } } }
    else if i == 10 { NamedColor { name: "teal", rgb: Rgb { r: 30, g: 130, b: 120 } } }
    else { NamedColor { name: "lime", rgb: Rgb { r: 150, g: 200, b: 50 } } }
}

/// The channels each colour word stands for, as the ID pass paints it.
pub open spec fn word_channels(word: Seq<char>) -> Option<Rgb> {
    if word == "red"@ { Some(Rgb { r: 220, g: 50, b: 47 }) }
    else if word == "blue"@ { Some(Rgb { r: 38, g: 105, b: 220 }) }
    else if word == "green"@ { Some(Rgb { r: 56, g: 160, b: 70 }) }
    else if word == "orange"@ { Some(Rgb { r: 235, g: 140, b: 30 }) }
    else if word == "purple"@ { Some(Rgb { r: 130, g: 70, b: 190 }) }
    else if word == "cyan"@ { Some(Rgb { r: 40, g: 175, b: 190 }) }
    else if word == "magenta"@ { Some(Rgb { r: 200, g: 60, b: 160 }) }
    else if word == "yellow"@ { Some(Rgb { r: 225, g: 195, b: 40 }) }
    else if word == "brown"@ { Some(Rgb { r: 140, g: 90, b: 50 }) }
    else if word == "pink"@ { Some(Rgb { r: 240, g: 130, b: 170 }) }
    else if word == "teal"@ { Some(Rgb { r: 30, g: 130, b: 120 }) }
    else if word == "lime"@ { Some(Rgb { r: 150, g: 200, b: 50 }) }
    else { None }
}

/// One channel moved `min(round, 3)` quarters of the way to white
/// (integer arithmetic, truncating).
pub open spec fn tint_channel(c: u8, round: nat) -> u8 {
    let k: nat = if round < 3 { round } else { 3 };
    (c as nat + (255 - c as nat) * k / 4) as u8
}

pub open spec fn tint(rgb: Rgb, round: nat) -> Rgb {
    Rgb { r: tint_channel(rgb.r, round), g: tint_channel(rgb.g, round), b: tint_channel(rgb.b, round) }
}

fn tint_exec(channel: u8, round: usize) -> (t: u8)
    ensures
        t == tint_channel(channel, round as nat),
{
    let k: u32 = if round < 3 { round as u32 } else { 3 };
    let c = channel as u32;
    assert((255 - c) * k <= 255 * 3) by (nonlinear_arith)
        requires
            c <= 255,
            k <= 3,
    ;
    let v = c + (255 - c) * k / 4;
    assert(v <= 255) by (nonlinear_arith)
        requires
            c <= 255,
            k <= 3,
            v == c + (255 - c) * k / 4,
    ;
    v as u8
}

/// The colour of the subject ranked `index`: palette entry `index mod 12`,
/// lightened a quarter of the way to white per completed wrap (at most
/// three quarters).
pub open spec fn color_at(index: nat) -> NamedColor {
    NamedColor {
        name: palette_name((index % 12) as int),
        rgb: tint(palette_rgb((index % 12) as int), index / 12),
    }
}

/// A subject's colour is painted as its word says, whatever its rank: the
/// channels are those of the colour word (`blue` is 38, 105, 220), tinted
/// once per completed wrap; a colour word names one colour only.
pub proof fn lemma_colour_matches_word(index: nat)
    ensures
        word_channels(color_at(index).name@) is Some,
        color_at(index).rgb == tint(word_channels(color_at(index).name@)->0, index / 12),
{
    reveal_strlit("red");
    reveal_strlit("blue");
    reveal_strlit("green");
    reveal_strlit("orange");
    reveal_strlit("purple");
    reveal_strlit("cyan");
    reveal_strlit("magenta");
    reveal_strlit("yellow");
    reveal_strlit("brown");
    reveal_strlit("pink");
    reveal_strlit("teal");
    reveal_strlit("lime");
    let i = index % 12;
    let w = color_at(index).name@;
    if i == 0 { assert(w == "red"@); }
    else if i == 1 { assert(w == "blue"@); assert(w.len() != "red"@.len()); }
    else if i == 2 { assert(w == "green"@); assert(w[0] != "red"@[0] && w[0] != "blue"@[0]); }
    else if i == 3 { assert(w == "orange"@); assert(w[0] != "red"@[0] && w[0] != "blue"@[0] && w[0] != "green"@[0]); }
    else if i == 4 { assert(w == "purple"@); assert(w[0] != "red"@[0] && w[0] != "blue"@[0] && w[0] != "green"@[0] && w[0] != "orange"@[0]); }
    else if i == 5 { assert(w == "cyan"@); assert(w[0] != "red"@[0] && w[0] != "blue"@[0] && w[0] != "green"@[0] && w[0] != "orange"@[0] && w[0] != "purple"@[0]); }
    else if i == 6 { assert(w == "magenta"@); assert(w[0] != "red"@[0] && w[0] != "blue"@[0] && w[0] != "green"@[0] && w[0] != "orange"@[0] && w[0] != "purple"@[0] && w[0] != "cyan"@[0]); }
    else if i == 7 { assert(w == "yellow"@); assert(w[0] != "red"@[0] && w[0] != "blue"@[0] && w[0] != "green"@[0] && w[0] != "orange"@[0] && w[0] != "purple"@[0] && w[0] != "cyan"@[0] && w[0] != "magenta"@[0]); }
    else if i == 8 { assert(w == "brown"@); assert(w[0] != "red"@[0] && w.len() != "blue"@.len() && w[0] != "green"@[0] && w[0] != "orange"@[0] && w[0] != "purple"@[0] && w[0] != "cyan"@[0] && w[0] != "magenta"@[0] && w[0] != "yellow"@[0]); }
    else if i == 9 { assert(w == "pink"@); assert(w[0] != "red"@[0] && w[0] != "blue"@[0] && w[0] != "green"@[0] && w[0] != "orange"@[0] && w.len() != "purple"@.len() && w[0] != "cyan"@[0] && w[0] != "magenta"@[0] && w[0] != "yellow"@[0] && w[0] != "brown"@[0]); }
    else if i == 10 { assert(w == "teal"@); assert(w[0] != "red"@[0] && w[0] != "blue"@[0] && w[0] != "green"@[0] && w[0] != "orange"@[0] && w[0] != "purple"@[0] && w[0] != "cyan"@[0] && w[0] != "magenta"@[0] && w[0] != "yellow"@[0] && w[0] != "brown"@[0] && w[0] != "pink"@[0]); }
    else { assert(w == "lime"@); assert(w[0] != "red"@[0] && w[0] != "blue"@[0] && w[0] != "green"@[0] && w[0] != "orange"@[0] && w[0] != "purple"@[0] && w[0] != "cyan"@[0] && w[0] != "magenta"@[0] && w[0] != "yellow"@[0] && w[0] != "brown"@[0] && w[0] != "pink"@[0] && w[0] != "teal"@[0]); }
}

/// Colour for the subject ranked `index` in a scene. Beyond the palette size
/// the sequence wraps with a lighter tint so colours stay distinguishable.
pub fn color_for_index(index: usize) -> (c: NamedColor)
    ensures
        c == color_at(index as nat),
{
    let base = palette_entry(index % 12);
    let round = index / 12;
    if round == 0 {
        assert(tint_channel(base.rgb.r, 0) == base.rgb.r);
        assert(tint_channel(base.rgb.g, 0) == base.rgb.g);
        assert(tint_channel(base.rgb.b, 0) == base.rgb.b);
        assert(tint(base.rgb, 0) == base.rgb);
        return base;
    }
    NamedColor {
        name: base.name,
        rgb: Rgb {
            r: tint_exec(base.rgb.r, round),
            g: tint_exec(base.rgb.g, round),
            b: tint_exec(base.rgb.b, round),
        },
    }
}

/// Lower-case hexadecimal digit of `d < 16`.
pub open spec fn hex_char(d: nat) -> char {
    if d < 10 { (('0' as u32) + d) as char } else { (('a' as u32) + (d - 10)) as char }
}

/// Two lower-case hex digits of a byte (`{:02x}`).
pub open spec fn hex_byte(v: u8) -> Seq<char> {
    seq![hex_char(v as nat / 16), hex_char(v as nat % 16)]
}

/// `#rrggbb` in lower case.
pub open spec fn hex_text(c: Rgb) -> Seq<char> {
    seq!['#'] + hex_byte(c.r) + hex_byte(c.g) + hex_byte(c.b)
}

pub(crate) fn hex_digit(d: u8) -> (c: char)
    requires
        d < 16,
    ensures
        c == hex_char(d as nat),
{
    if d < 10 { ((48u8) + d) as char } else { ((97u8) + (d - 10)) as char }
}

fn push_hex_byte(s: &mut String, v: u8)
    ensures
        final(s)@ == old(s)@ + hex_byte(v),
{
    push_char(s, hex_digit(v / 16));
    push_char(s, hex_digit(v % 16));
    assert(s@ =~= old(s)@ + hex_byte(v));
}

impl Rgb {
    /// `#rrggbb`, lower-case hex.
    pub fn hex(self) -> (s: String)
        ensures
            s@ == hex_text(self),
    {
        let mut s = String::new();
        push_char(&mut s, '#');
        push_hex_byte(&mut s, self.r);
        push_hex_byte(&mut s, self.g);
        push_hex_byte(&mut s, self.b);
        assert(s@ =~= hex_text(self));
        s
    }
}

/// `s` is strictly increasing in text order (sorted, no duplicates).
pub open spec fn strictly_sorted(s: Seq<Seq<char>>) -> bool {
    forall|i: int, j: int| 0 <= i < j < s.len() ==> text_less(#[trigger] s[i], #[trigger] s[j])
}

/// The ids of `entries`.
pub open spec fn entry_ids(entries: Seq<(String, NamedColor)>) -> Seq<Seq<char>> {
    entries.map_values(|e: (String, NamedColor)| e.0@)
}

/// What `palette_for_ids` returns for `ids`: each distinct id once, in
/// sorted order, coloured by its rank.
pub open spec fn is_palette_of(entries: Seq<(String, NamedColor)>, ids: Seq<Seq<char>>) -> bool {
    &&& strictly_sorted(entry_ids(entries))
    &&& forall|t: Seq<char>| entry_ids(entries).contains(t) <==> ids.contains(t)
    &&& forall|i: int| 0 <= i < entries.len() ==> #[trigger] entries[i].1 == color_at(i as nat)
}

/// Sorted distinct ids of `ids`, as character vectors.
fn sorted_distinct(ids: &Vec<Vec<char>>) -> (out: Vec<Vec<char>>)
    ensures
        strictly_sorted(crate::text::views(out@)),
        forall|t: Seq<char>| crate::text::views(out@).contains(t) <==> crate::text::views(ids@).contains(t),
{
    let mut out: Vec<Vec<char>> = Vec::new();
    let mut k: usize = 0;
    while k < ids.len()
        invariant
            k <= ids.len(),
            strictly_sorted(crate::text::views(out@)),
            forall|t: Seq<char>| crate::text::views(out@).contains(t) <==> crate::text::views(ids@.take(k as int)).contains(t),
        decreases ids.len() - k,
    {
        let id: &Vec<char> = &ids[k];
        assert(id@ == ids@[k as int]@);
        let ghost before = crate::text::views(out@);
        // Find the first position whose entry is not less than `id`.
        let mut pos: usize = 0;
        let mut go = pos < out.len() && chars_less(&out[pos], id);
        assert(pos < out.len() ==> before[pos as int] == out@[pos as int]@);
        while go
            invariant
                k < ids.len(),
                id@ == ids@[k as int]@,
                pos <= out.len(),
                crate::text::views(out@) == before,
                go == (pos < out.len() && text_less(before[pos as int], id@)),
                forall|j: int| 0 <= j < pos ==> text_less(#[trigger] before[j], ids@[k as int]@),
            decreases out.len() - pos,
        {
            pos = pos + 1;
            go = pos < out.len() && chars_less(&out[pos], id);
            assert(pos < out.len() ==> before[pos as int] == out@[pos as int]@);
        }
        assert(crate::text::views(ids@.take(k + 1)) =~= crate::text::views(ids@.take(k as int)).push(ids@[k as int]@));
        let duplicate = pos < out.len() && !chars_less(id, &out[pos]);
        if duplicate {
            proof {
                assert(before[pos as int] == out@[pos as int]@);
                if before[pos as int] != ids@[k as int]@ {
                    lemma_text_less_total(before[pos as int], ids@[k as int]@);
                }
                assert(before[pos as int] == ids@[k as int]@);
            }
            assert forall|t: Seq<char>| crate::text::views(out@).contains(t) <==> crate::text::views(ids@.take(k + 1)).contains(t) by {
                if t == ids@[k as int]@ {
                    assert(crate::text::views(out@)[pos as int] == t);
                }
            }
        } else {
            let copy = id.clone();
            proof {
                if pos < out.len() {
                    assert(before[pos as int] == out@[pos as int]@);
                }
            }
            out.insert(pos, copy);
            let ghost after = crate::text::views(out@);
            assert(after =~= before.insert(pos as int, ids@[k as int]@));
            assert forall|i: int, j: int| 0 <= i < j < after.len() implies text_less(#[trigger] after[i], #[trigger] after[j]) by {
                if j < pos {
                } else if j == pos {
                } else if i < pos {
                    assert(after[j] == before[j - 1]);
                } else if i == pos {
                    assert(after[j] == before[j - 1]);
                    if j - 1 > pos {
                        lemma_text_less_transitive(after[i], before[pos as int], before[j - 1]);
                    }
                } else {
                    assert(after[i] == before[i - 1]);
                    assert(after[j] == before[j - 1]);
                }
            }
            assert forall|t: Seq<char>| crate::text::views(out@).contains(t) <==> crate::text::views(ids@.take(k + 1)).contains(t) by {
                if after.contains(t) {
                    let w = choose|w: int| 0 <= w < after.len() && after[w] == t;
                    if w < pos {
                        assert(before[w] == t);
                    } else if w > pos {
                        assert(before[w - 1] == t);
                    }
                }
                if before.contains(t) {
                    let w = choose|w: int| 0 <= w < before.len() && before[w] == t;
                    if w < pos {
                        assert(after[w] == t);
                    } else {
                        assert(after[w + 1] == t);
                    }
                }
                if t == ids@[k as int]@ {
                    assert(after[pos as int] == t);
                }
            }
        }
        k = k + 1;
    }
    assert(ids@.take(ids.len() as int) =~= ids@);
    out
}

/// Stable colour assignment for a set of subject ids: each distinct id once,
/// in sorted order, paired with the colour of its rank.
pub fn palette_for_ids(ids: &Vec<String>) -> (entries: Vec<(String, NamedColor)>)
    ensures
        is_palette_of(entries@, crate::text::string_views(ids@)),
{
    let mut chars: Vec<Vec<char>> = Vec::new();
    let mut k: usize = 0;
    while k < ids.len()
        invariant
            k <= ids.len(),
            crate::text::views(chars@) == crate::text::string_views(ids@.take(k as int)),
        decreases ids.len() - k,
    {
        let v = chars_of(ids[k].as_str());
        assert(v@ == ids@[k as int]@);
        let ghost old_chars = chars@;
        chars.push(v);
        assert(chars@ == old_chars.push(v));
        assert(crate::text::views(chars@) =~= crate::text::views(old_chars).push(v@));
        assert(ids@.take(k + 1) =~= ids@.take(k as int).push(ids@[k as int]));
        assert(crate::text::string_views(ids@.take(k + 1)) =~= crate::text::string_views(ids@.take(k as int)).push(ids@[k as int]@));
        assert(crate::text::views(chars@) =~= crate::text::string_views(ids@.take(k + 1)));
        k = k + 1;
    }
    assert(ids@.take(ids.len() as int) =~= ids@);
    let sorted = sorted_distinct(&chars);
    let mut entries: Vec<(String, NamedColor)> = Vec::new();
    let mut i: usize = 0;
    while i < sorted.len()
        invariant
            i <= sorted.len(),
            entries@.len() == i,
            forall|j: int| 0 <= j < i ==> (#[trigger] entries@[j]).0@ == sorted@[j]@,
            forall|j: int| 0 <= j < i ==> (#[trigger] entries@[j]).1 == color_at(j as nat),
        decreases sorted.len() - i,
    {
        let name = string_of(&sorted[i]);
        let color = color_for_index(i);
        entries.push((name, color));
        i = i + 1;
    }
    assert(entry_ids(entries@) =~= crate::text::views(sorted@));
    entries
}

/// Stable colour assignment for every subject in `scene`: each distinct
/// subject id once, in sorted order, with the colour of its rank.
pub fn scene_palette(scene: &Scene) -> (entries: Vec<(String, NamedColor)>)
    ensures
        is_palette_of(entries@, ids(scene.subjects@)),
{
    palette_for_ids(&collect_ids(&scene.subjects))
}

proof fn lemma_text_order()
    ensures
        strict_total_order(|a: Seq<char>, b: Seq<char>| text_less(a, b)),
{
    assert forall|x: Seq<char>| !text_less(x, x) by {
        lemma_text_less_irreflexive(x);
    }
    assert forall|x: Seq<char>, y: Seq<char>, z: Seq<char>| text_less(x, y) && text_less(y, z) implies text_less(
        x,
        z,
    ) by {
        lemma_text_less_transitive(x, y, z);
    }
    assert forall|x: Seq<char>, y: Seq<char>| x != y implies text_less(x, y) || text_less(y, x) by {
        lemma_text_less_total(x, y);
    }
}

/// The palette depends on the set of ids alone: two id lists with the same
/// members (in any order, with any repetition) get the same entries.
pub proof fn lemma_palette_depends_on_id_set(
    a: Seq<(String, NamedColor)>,
    b: Seq<(String, NamedColor)>,
    ids_a: Seq<Seq<char>>,
    ids_b: Seq<Seq<char>>,
)
    requires
        is_palette_of(a, ids_a),
        is_palette_of(b, ids_b),
        forall|t: Seq<char>| ids_a.contains(t) <==> ids_b.contains(t),
    ensures
        entry_ids(a) == entry_ids(b),
        a.len() == b.len(),
        forall|i: int| 0 <= i < a.len() ==> a[i].1 == b[i].1,
{
    let lt = |x: Seq<char>, y: Seq<char>| text_less(x, y);
    lemma_text_order();
    let ea = entry_ids(a);
    let eb = entry_ids(b);
    assert(increasing(ea, lt)) by {
        assert forall|i: int, j: int| 0 <= i < j < ea.len() implies lt(#[trigger] ea[i], #[trigger] ea[j]) by {
            assert(text_less(ea[i], ea[j]));
        }
    }
    assert(increasing(eb, lt)) by {
        assert forall|i: int, j: int| 0 <= i < j < eb.len() implies lt(#[trigger] eb[i], #[trigger] eb[j]) by {
            assert(text_less(eb[i], eb[j]));
        }
    }
    assert forall|x: Seq<char>| ea.contains(x) <==> eb.contains(x) by {
        if ea.contains(x) {
            assert(ids_a.contains(x));
        }
        if eb.contains(x) {
            assert(ids_b.contains(x));
        }
    }
    lemma_increasing_unique(ea, eb, lt);
    assert forall|i: int| 0 <= i < a.len() implies a[i].1 == b[i].1 by {
        assert(a[i].1 == color_at(i as nat));
        assert(b[i].1 == color_at(i as nat));
    }
}

/// The distinct ids of `ids` in text order.
pub open spec fn sorted_ids(ids: Seq<Seq<char>>) -> Seq<Seq<char>> {
    choose|s: Seq<Seq<char>>| strictly_sorted(s) && forall|t: Seq<char>| s.contains(t) <==> ids.contains(t)
}

/// Position of `t` in `s`.
pub open spec fn rank_in(s: Seq<Seq<char>>, t: Seq<char>) -> int {
    choose|i: int| 0 <= i < s.len() && s[i] == t
}

/// The colour of id `t` among the subject ids `ids`: that of its rank in
/// text order, when it is one of them.
pub open spec fn palette_color(ids: Seq<Seq<char>>, t: Seq<char>) -> Option<NamedColor> {
    let s = sorted_ids(ids);
    if s.contains(t) {
        Some(color_at(rank_in(s, t) as nat))
    } else {
        None
    }
}

/// A palette lists exactly the sorted distinct ids.
pub proof fn lemma_palette_entries(entries: Seq<(String, NamedColor)>, ids: Seq<Seq<char>>)
    requires
        is_palette_of(entries, ids),
    ensures
        entry_ids(entries) == sorted_ids(ids),
{
    let e = entry_ids(entries);
    assert(strictly_sorted(e) && forall|t: Seq<char>| e.contains(t) <==> ids.contains(t));
    let s = sorted_ids(ids);
    let lt = |x: Seq<char>, y: Seq<char>| text_less(x, y);
    lemma_text_order();
    assert(increasing(e, lt)) by {
        assert forall|i: int, j: int| 0 <= i < j < e.len() implies lt(#[trigger] e[i], #[trigger] e[j]) by {
            assert(text_less(e[i], e[j]));
        }
    }
    assert(increasing(s, lt)) by {
        assert forall|i: int, j: int| 0 <= i < j < s.len() implies lt(#[trigger] s[i], #[trigger] s[j]) by {
            assert(text_less(s[i], s[j]));
        }
    }
    lemma_increasing_unique(e, s, lt);
}

/// Colour of subject `id` in a palette.
pub fn palette_lookup(entries: &Vec<(String, NamedColor)>, id: &str) -> (color: Option<NamedColor>)
    requires
        exists|ids: Seq<Seq<char>>| is_palette_of(entries@, ids),
    ensures
        forall|ids: Seq<Seq<char>>| is_palette_of(entries@, ids) ==> color == palette_color(ids, id@),
{
    let wanted = crate::text::owned(id);
    let ghost e = entry_ids(entries@);
    let mut i: usize = 0;
    while i < entries.len()
        invariant
            i <= entries.len(),
            wanted@ == id@,
            e == entry_ids(entries@),
            forall|j: int| 0 <= j < i ==> e[j] != id@,
        decreases entries.len() - i,
    {
        if entries[i].0 == wanted {
            proof {
                assert forall|ids: Seq<Seq<char>>| is_palette_of(entries@, ids) implies Some(entries@[i as int].1) == palette_color(ids, id@) by {
                    lemma_palette_entries(entries@, ids);
                    let s = sorted_ids(ids);
                    assert(s[i as int] == id@);
                    assert(s.contains(id@));
                    let r = rank_in(s, id@);
                    if r != i {
                        if r < i {
                            assert(text_less(s[r], s[i as int]));
                        } else {
                            assert(text_less(s[i as int], s[r]));
                        }
                        lemma_text_less_irreflexive(id@);
                    }
                }
            }
            return Some(entries[i].1);
        }
        i = i + 1;
    }
    proof {
        assert forall|ids: Seq<Seq<char>>| is_palette_of(entries@, ids) implies palette_color(ids, id@) is None by {
            lemma_palette_entries(entries@, ids);
            let s = sorted_ids(ids);
            if s.contains(id@) {
                let k = choose|k: int| 0 <= k < s.len() && s[k] == id@;
                assert(e[k] == id@);
            }
        }
    }
    None
}

proof fn lemma_tint_channel_monotone(c: u8, a: nat, b: nat)
    requires
        a <= b,
    ensures
        tint_channel(c, a) <= tint_channel(c, b),
        b >= 3 ==> tint_channel(c, b) == tint_channel(c, 3),
{
    let ka: nat = if a < 3 { a } else { 3 };
    let kb: nat = if b < 3 { b } else { 3 };
    let w = (255 - c as nat) as nat;
    assert(w * ka / 4 <= w * kb / 4) by (nonlinear_arith)
        requires
            ka <= kb,
    ;
    assert(c as nat + w * kb / 4 <= 255) by (nonlinear_arith)
        requires
            w == 255 - c as nat,
            kb <= 3,
            c <= 255,
    ;
    assert(c as nat + w * ka / 4 <= 255) by (nonlinear_arith)
        requires
            w == 255 - c as nat,
            ka <= 3,
            c <= 255,
    ;
}

/// Ranks twelve apart share a colour word; the later one is no darker on
/// any channel, and from the fourth wrap on the tint no longer changes.
pub proof fn lemma_palette_wraps(index: nat)
    ensures
        color_at(index + 12).name == color_at(index).name,
        color_at(index + 12).rgb.r >= color_at(index).rgb.r,
        color_at(index + 12).rgb.g >= color_at(index).rgb.g,
        color_at(index + 12).rgb.b >= color_at(index).rgb.b,
        index / 12 >= 3 ==> color_at(index + 12) == color_at(index),
{
    assert((index + 12) % 12 == index % 12);
    assert((index + 12) / 12 == index / 12 + 1);
    let base = palette_rgb((index % 12) as int);
    let round = index / 12;
    lemma_tint_channel_monotone(base.r, round, round + 1);
    lemma_tint_channel_monotone(base.g, round, round + 1);
    lemma_tint_channel_monotone(base.b, round, round + 1);
    if round >= 3 {
        lemma_tint_channel_monotone(base.r, 3, round);
        lemma_tint_channel_monotone(base.g, 3, round);
        lemma_tint_channel_monotone(base.b, 3, round);
    }
}

} // verus!
