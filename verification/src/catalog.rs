//! The offline game catalog and fuzzy title resolution.
use vstd::prelude::*;

pub mod metadata;
pub mod protondb;
pub mod steam_api;
pub mod updater;

use crate::binary32::{
    lemma_quotient_at_most_one, lemma_round_binary32_monotone, lemma_round_exact,
    lemma_two_pow_add, lemma_two_pow_constants, quotient32, quotient_exec, round_binary32,
    round_exec, two_pow,
};
use crate::text::{
    ascii_alnum, chars_of, contains, contains_chars, is_ascii_alnum, join_with_spaces, join_words,
    lowercase, string_of, to_lowercase, views, words, words_of,
};



verus! {

/// Capability tiers for one requirement level: CPU and GPU scores, RAM and VRAM in GB.
#[derive(Clone, Copy, Debug)]
pub struct Tier {
    pub cpu: u16,
    pub gpu: u16,
    pub ram_gb: u16,
    pub vram_gb: u16,
}

/// One game of the catalog.
#[derive(Clone, Copy, Debug)]
pub struct Game {
    pub id: &'static str,
    pub title: &'static str,
    pub aliases: &'static [&'static str],
    pub minimum: Tier,
    pub recommended: Tier,
    pub storage_gb: u16,
    pub api: &'static str,
    pub minimum_label: &'static str,
    pub recommended_label: &'static str,
    pub linux: LinuxSupport,
    pub issues: &'static [&'static str],
}

/// How well a game runs on Linux.
#[derive(Clone, Copy, Debug, PartialEq, Eq, Structural)]
pub enum LinuxSupport {
    Native,
    ProtonGood,
    ProtonMixed,
}

/// The bundled catalog, in order.
pub open spec fn catalog() -> Seq<Game> {
    seq![
        Game {
            id: "batman-arkham-knight",
            title: "Batman: Arkham Knight",
            aliases: &["arkham knight", "batman ak", "batman arkham"],
            minimum: Tier { cpu: 38, gpu: 32, ram_gb: 6, vram_gb: 2 },
            recommended: Tier { cpu: 48, gpu: 45, ram_gb: 8, vram_gb: 3 },
            storage_gb: 45,
            api: "DirectX 11",
            minimum_label: "Core i5-750 / GTX 660 2GB",
            recommended_label: "Core i7-3770 / GTX 760 3GB",
            linux: LinuxSupport::ProtonGood,
            issues: &[
                "The Windows release had severe launch-era performance issues",
                "Proton may need shader compilation time",
            ],
        },
        Game {
            id: "cyberpunk-2077",
            title: "Cyberpunk 2077",
            aliases: &["cyberpunk", "cp2077", "cyberpunk2077"],
            minimum: Tier { cpu: 52, gpu: 55, ram_gb: 12, vram_gb: 6 },
            recommended: Tier { cpu: 68, gpu: 72, ram_gb: 16, vram_gb: 8 },
            storage_gb: 70,
            api: "DirectX 12 / Vulkan via Proton",
            minimum_label: "Core i7-6700 / GTX 1060 6GB",
            recommended_label: "Core i7-12700 / RTX 2060 Super",
            linux: LinuxSupport::ProtonGood,
            issues: &["Ray tracing is excluded from Ciri's estimate", "An SSD is strongly recommended"],
        },
        Game {
            id: "elden-ring",
            title: "Elden Ring",
            aliases: &["eldenring"],
            minimum: Tier { cpu: 52, gpu: 50, ram_gb: 12, vram_gb: 3 },
            recommended: Tier { cpu: 64, gpu: 65, ram_gb: 16, vram_gb: 8 },
            storage_gb: 60,
            api: "DirectX 12 / Vulkan via Proton",
            minimum_label: "Core i5-8400 / GTX 1060 3GB",
            recommended_label: "Core i7-8700K / GTX 1070 8GB",
            linux: LinuxSupport::ProtonGood,
            issues: &[
                "Shader compilation can cause traversal stutter",
                "The game is capped at 60 FPS by default",
            ],
        },
        Game {
            id: "baldurs-gate-3",
            title: "Baldur's Gate 3",
            aliases: &["baldurs gate 3", "bg3", "baldur's gate iii"],
            minimum: Tier { cpu: 42, gpu: 42, ram_gb: 8, vram_gb: 4 },
            recommended: Tier { cpu: 64, gpu: 65, ram_gb: 16, vram_gb: 8 },
            storage_gb: 150,
            api: "DirectX 11 / Vulkan",
            minimum_label: "Core i5-4690 / GTX 970",
            recommended_label: "Core i7-8700K / RTX 2060 Super",
            linux: LinuxSupport::ProtonGood,
            issues: &["Dense late-game areas are unusually CPU-heavy", "An SSD is required"],
        },
        Game {
            id: "grand-theft-auto-v",
            title: "Grand Theft Auto V",
            aliases: &["gta v", "gta 5", "gtav"],
            minimum: Tier { cpu: 28, gpu: 22, ram_gb: 4, vram_gb: 1 },
            recommended: Tier { cpu: 40, gpu: 35, ram_gb: 8, vram_gb: 2 },
            storage_gb: 120,
            api: "DirectX 11",
            minimum_label: "Core 2 Quad Q6600 / 9800 GT",
            recommended_label: "Core i5-3470 / GTX 660",
            linux: LinuxSupport::ProtonMixed,
            issues: &[
                "GTA Online anti-cheat support on Linux can change",
                "Enhanced-edition features are not included",
            ],
        },
        Game {
            id: "the-witcher-3",
            title: "The Witcher 3: Wild Hunt",
            aliases: &["witcher 3", "witcher iii", "wild hunt"],
            minimum: Tier { cpu: 38, gpu: 34, ram_gb: 6, vram_gb: 2 },
            recommended: Tier { cpu: 54, gpu: 58, ram_gb: 8, vram_gb: 6 },
            storage_gb: 50,
            api: "DirectX 11/12 / Vulkan via Proton",
            minimum_label: "Core i5-2500K / GTX 660",
            recommended_label: "Core i5-7400 / GTX 1070",
            linux: LinuxSupport::ProtonGood,
            issues: &[
                "The next-gen DX12 renderer is heavier than DX11",
                "HairWorks and ray tracing are excluded from estimates",
            ],
        },
    ]
}

/// The bundled catalog: Batman: Arkham Knight, Cyberpunk 2077, Elden Ring,
/// Baldur's Gate 3, Grand Theft Auto V and The Witcher 3, in that order.
pub fn games() -> (g: Vec<Game>)
    ensures
        g@ == catalog(),
{
    let mut g: Vec<Game> = Vec::new();
    g.push(
        Game {
            id: "batman-arkham-knight",
            title: "Batman: Arkham Knight",
            aliases: &["arkham knight", "batman ak", "batman arkham"],
            minimum: Tier { cpu: 38, gpu: 32, ram_gb: 6, vram_gb: 2 },
            recommended: Tier { cpu: 48, gpu: 45, ram_gb: 8, vram_gb: 3 },
            storage_gb: 45,
            api: "DirectX 11",
            minimum_label: "Core i5-750 / GTX 660 2GB",
            recommended_label: "Core i7-3770 / GTX 760 3GB",
            linux: LinuxSupport::ProtonGood,
            issues: &[
                "The Windows release had severe launch-era performance issues",
                "Proton may need shader compilation time",
            ],
        },
    );
    g.push(
        Game {
            id: "cyberpunk-2077",
            title: "Cyberpunk 2077",
            aliases: &["cyberpunk", "cp2077", "cyberpunk2077"],
            minimum: Tier { cpu: 52, gpu: 55, ram_gb: 12, vram_gb: 6 },
            recommended: Tier { cpu: 68, gpu: 72, ram_gb: 16, vram_gb: 8 },
            storage_gb: 70,
            api: "DirectX 12 / Vulkan via Proton",
            minimum_label: "Core i7-6700 / GTX 1060 6GB",
            recommended_label: "Core i7-12700 / RTX 2060 Super",
            linux: LinuxSupport::ProtonGood,
            issues: &["Ray tracing is excluded from Ciri's estimate", "An SSD is strongly recommended"],
        },
    );
    g.push(
        Game {
            id: "elden-ring",
            title: "Elden Ring",
            aliases: &["eldenring"],
            minimum: Tier { cpu: 52, gpu: 50, ram_gb: 12, vram_gb: 3 },
            recommended: Tier { cpu: 64, gpu: 65, ram_gb: 16, vram_gb: 8 },
            storage_gb: 60,
            api: "DirectX 12 / Vulkan via Proton",
            minimum_label: "Core i5-8400 / GTX 1060 3GB",
            recommended_label: "Core i7-8700K / GTX 1070 8GB",
            linux: LinuxSupport::ProtonGood,
            issues: &[
                "Shader compilation can cause traversal stutter",
                "The game is capped at 60 FPS by default",
            ],
        },
    );
    g.push(
        Game {
            id: "baldurs-gate-3",
            title: "Baldur's Gate 3",
            aliases: &["baldurs gate 3", "bg3", "baldur's gate iii"],
            minimum: Tier { cpu: 42, gpu: 42, ram_gb: 8, vram_gb: 4 },
            recommended: Tier { cpu: 64, gpu: 65, ram_gb: 16, vram_gb: 8 },
            storage_gb: 150,
            api: "DirectX 11 / Vulkan",
            minimum_label: "Core i5-4690 / GTX 970",
            recommended_label: "Core i7-8700K / RTX 2060 Super",
            linux: LinuxSupport::ProtonGood,
            issues: &["Dense late-game areas are unusually CPU-heavy", "An SSD is required"],
        },
    );
    g.push(
        Game {
            id: "grand-theft-auto-v",
            title: "Grand Theft Auto V",
            aliases: &["gta v", "gta 5", "gtav"],
            minimum: Tier { cpu: 28, gpu: 22, ram_gb: 4, vram_gb: 1 },
            recommended: Tier { cpu: 40, gpu: 35, ram_gb: 8, vram_gb: 2 },
            storage_gb: 120,
            api: "DirectX 11",
            minimum_label: "Core 2 Quad Q6600 / 9800 GT",
            recommended_label: "Core i5-3470 / GTX 660",
            linux: LinuxSupport::ProtonMixed,
            issues: &[
                "GTA Online anti-cheat support on Linux can change",
                "Enhanced-edition features are not included",
            ],
        },
    );
    g.push(
        Game {
            id: "the-witcher-3",
            title: "The Witcher 3: Wild Hunt",
            aliases: &["witcher 3", "witcher iii", "wild hunt"],
            minimum: Tier { cpu: 38, gpu: 34, ram_gb: 6, vram_gb: 2 },
            recommended: Tier { cpu: 54, gpu: 58, ram_gb: 8, vram_gb: 6 },
            storage_gb: 50,
            api: "DirectX 11/12 / Vulkan via Proton",
            minimum_label: "Core i5-2500K / GTX 660",
            recommended_label: "Core i5-7400 / GTX 1070",
            linux: LinuxSupport::ProtonGood,
            issues: &[
                "The next-gen DX12 renderer is heavier than DX11",
                "HairWorks and ray tracing are excluded from estimates",
            ],
        },
    );
    g
}

} // verus!

verus! {

/// A character kept by normalization, or a space in its place.
pub open spec fn mask_char(c: char) -> char {
    if is_ascii_alnum(c) {
        c
    } else {
        ' '
    }
}

/// Title normalization: lowercase, then `normalized_lower`.
pub open spec fn normalized(s: Seq<char>) -> Seq<char> {
    normalized_lower(lowercase(s))
}

/// Normalization of lowercase text: every character that is not ASCII alphanumeric becomes
/// a space, and the words that remain are joined by single spaces.
pub open spec fn normalized_lower(s: Seq<char>) -> Seq<char> {
    join_words(words(s.map_values(|c: char| mask_char(c))))
}

/// Normalizes a title or query for matching.
pub fn normalize(value: &str) -> (r: String)
    ensures
        r@ == normalized(value@),
{
    let lower = to_lowercase(value);
    normalize_lowercase(lower.as_str())
}

/// Normalizes lowercase text: see `normalized_lower`.
pub fn normalize_lowercase(text: &str) -> (r: String)
    ensures
        r@ == normalized_lower(text@),
{
    let lower = chars_of(text);
    let mut masked: Vec<char> = Vec::new();
    let mut i: usize = 0;
    while i < lower.len()
        invariant
            i <= lower@.len(),
            masked@ == lower@.take(i as int).map_values(|c: char| mask_char(c)),
        decreases lower@.len() - i,
    {
        let c = lower[i];
        masked.push(if ascii_alnum(c) { c } else { ' ' });
        assert(lower@.take(i + 1).map_values(|c: char| mask_char(c)) =~= lower@.take(
            i as int,
        ).map_values(|c: char| mask_char(c)).push(mask_char(c)));
        i += 1;
    }
    assert(lower@.take(lower@.len() as int) == lower@);
    let ws = words_of(masked.as_slice());
    let joined = join_with_spaces(&ws);
    string_of(&joined)
}

/// Edit distance between the first `i` bytes of `a` and the first `j` bytes of `b`:
/// equal last bytes cost nothing, otherwise one substitution, deletion or insertion.
pub open spec fn edit_distance(a: Seq<u8>, b: Seq<u8>, i: nat, j: nat) -> nat
    decreases i + j,
{
    if i == 0 {
        j
    } else if j == 0 {
        i
    } else if a[i - 1] == b[j - 1] {
        edit_distance(a, b, (i - 1) as nat, (j - 1) as nat)
    } else {
        let sub = edit_distance(a, b, (i - 1) as nat, (j - 1) as nat);
        let del = edit_distance(a, b, (i - 1) as nat, j);
        let ins = edit_distance(a, b, i, (j - 1) as nat);
        1 + if sub <= del && sub <= ins {
            sub
        } else if del <= ins {
            del
        } else {
            ins
        }
    }
}

/// The Levenshtein distance between two byte strings.
pub open spec fn levenshtein_distance(a: Seq<u8>, b: Seq<u8>) -> nat {
    edit_distance(a, b, a.len(), b.len())
}

proof fn lemma_edit_distance_bound(a: Seq<u8>, b: Seq<u8>, i: nat, j: nat)
    ensures
        edit_distance(a, b, i, j) <= if i <= j {
            j
        } else {
            i
        },
    decreases i + j,
{
    if i > 0 && j > 0 {
        lemma_edit_distance_bound(a, b, (i - 1) as nat, (j - 1) as nat);
        lemma_edit_distance_bound(a, b, (i - 1) as nat, j);
        lemma_edit_distance_bound(a, b, i, (j - 1) as nat);
    }
}

/// Levenshtein distance by the single-row dynamic program.
pub fn levenshtein(a: &[u8], b: &[u8]) -> (d: usize)
    ensures
        d == levenshtein_distance(a@, b@),
{
    let n = a.len();
    let m = b.len();
    // row[j] holds the distance between the first i bytes of a and the first j + 1 bytes of b
    let mut row: Vec<usize> = Vec::new();
    let mut j: usize = 0;
    while j < m
        invariant
            j <= m,
            m == b@.len(),
            row@.len() == j,
            forall|k: int| 0 <= k < j ==> row@[k] == k + 1,
        decreases m - j,
    {
        row.push(j + 1);
        j += 1;
    }
    let mut i: usize = 0;
    while i < n
        invariant
            i <= n,
            n == a@.len(),
            m == b@.len(),
            row@.len() == m,
            forall|k: int|
                0 <= k < m ==> row@[k] == edit_distance(a@, b@, i as nat, (k + 1) as nat),
        decreases n - i,
    {
        let mut diagonal: usize = i;
        let mut left: usize = i + 1;
        let mut j: usize = 0;
        while j < m
            invariant
                i < n,
                j <= m,
                n == a@.len(),
                m == b@.len(),
                row@.len() == m,
                diagonal == edit_distance(a@, b@, i as nat, j as nat),
                left == edit_distance(a@, b@, (i + 1) as nat, j as nat),
                forall|k: int|
                    0 <= k < j ==> row@[k] == edit_distance(a@, b@, (i + 1) as nat, (k + 1) as nat),
                forall|k: int|
                    j <= k < m ==> row@[k] == edit_distance(a@, b@, i as nat, (k + 1) as nat),
            decreases m - j,
        {
            let above = row[j];
            proof {
                lemma_edit_distance_bound(a@, b@, i as nat, j as nat);
            }
            let cur = if a[i] == b[j] {
                diagonal
            } else {
                let mut best = diagonal;
                if above < best {
                    best = above;
                }
                if left < best {
                    best = left;
                }
                1 + best
            };
            assert(cur == edit_distance(a@, b@, (i + 1) as nat, (j + 1) as nat));
            row.set(j, cur);
            diagonal = above;
            left = cur;
            j += 1;
        }
        i += 1;
    }
    if m == 0 {
        n
    } else {
        row[m - 1]
    }
}

} // verus!

verus! {

/// The byte codes of an ASCII character sequence.
pub open spec fn ascii_codes(s: Seq<char>) -> Seq<u8> {
    s.map_values(|c: char| c as u8)
}

/// Similarity of two normalized titles, computed in `f32` as a value in units of 2^-91
/// (so that every `f32` step below is an exact integer): 1 for equal strings;
/// `0.88 + 0.12 * (shorter / longer)` when one contains the other; otherwise
/// `1 - levenshtein / longer`. Lengths are converted to `f32` and each operation is rounded to
/// `f32`, as `round_binary32` states; 0.88 and 0.12 are the `f32` constants 7381975 * 2^-23
/// and 16106127 * 2^-27. The quotient `levenshtein / longer` is at most one (see
/// `lemma_quotient_at_most_one`), so the subtraction stays nonnegative.
pub open spec fn similarity_of(a: Seq<char>, b: Seq<char>) -> nat {
    let longer = if a.len() >= b.len() {
        a.len()
    } else {
        b.len()
    };
    let shorter = if a.len() <= b.len() {
        a.len()
    } else {
        b.len()
    };
    if a == b {
        two_pow(91)
    } else if contains(b, a) || contains(a, b) {
        let scaled = round_binary32(16106127 * quotient32(shorter, longer), two_pow(27));
        round_binary32(7381975 * two_pow(68) + scaled, 1)
    } else {
        let ratio = quotient32(levenshtein_distance(ascii_codes(a), ascii_codes(b)), longer);
        round_binary32((two_pow(91) - ratio) as nat, 1)
    }
}

/// A similarity is at most one: 2^91 in its units.
pub proof fn law_similarity_at_most_one(a: Seq<char>, b: Seq<char>)
    requires
        a.len() < 0x1_0000_0000_0000_0000,
        b.len() < 0x1_0000_0000_0000_0000,
    ensures
        similarity_of(a, b) <= two_pow(91),
{
    lemma_two_pow_constants();
    let longer = if a.len() >= b.len() {
        a.len()
    } else {
        b.len()
    };
    let shorter = if a.len() <= b.len() {
        a.len()
    } else {
        b.len()
    };
    if a == b {
    } else {
        if a.len() == 0 && b.len() == 0 {
            assert(a =~= b);
        }
        lemma_round_exact(0x80_0000, 68, 1);
        assert(0x80_0000 * two_pow(68) * 1 == two_pow(91));
        if contains(b, a) || contains(a, b) {
            lemma_quotient_at_most_one(shorter, longer);
            let q = quotient32(shorter, longer);
            assert(16106127 * 0x800_0000_0000_0000_0000_0000 < two_pow(27) * two_pow(100));
            lemma_round_binary32_monotone(
                16106127 * q,
                16106127 * 0x800_0000_0000_0000_0000_0000,
                two_pow(27),
            );
            lemma_round_exact(16106127, 64, two_pow(27));
            lemma_two_pow_add(64, 27);
            let scaled = round_binary32(16106127 * q, two_pow(27));
            assert(scaled <= 0xf5_c28f_0000_0000_0000_0000);
            lemma_round_binary32_monotone(7381975 * two_pow(68) + scaled, two_pow(91), 1);
        } else {
            if a.len() == 0 {
                assert(b.subrange(0, 0) =~= a);
                assert(occurs_at(b, a, 0));
            }
            if b.len() == 0 {
                assert(a.subrange(0, 0) =~= b);
                assert(occurs_at(a, b, 0));
            }
            let d = levenshtein_distance(ascii_codes(a), ascii_codes(b));
            lemma_edit_distance_bound(ascii_codes(a), ascii_codes(b), a.len(), b.len());
            lemma_quotient_at_most_one(d, longer);
            let ratio = quotient32(d, longer);
            lemma_round_binary32_monotone((two_pow(91) - ratio) as nat, two_pow(91), 1);
        }
    }
}

fn codes_of(s: &[char]) -> (v: Vec<u8>)
    ensures
        v@ == ascii_codes(s@),
{
    let mut v: Vec<u8> = Vec::new();
    let mut i: usize = 0;
    while i < s.len()
        invariant
            i <= s@.len(),
            v@ == ascii_codes(s@.take(i as int)),
        decreases s@.len() - i,
    {
        v.push(s[i] as u8);
        assert(ascii_codes(s@.take(i + 1)) =~= ascii_codes(s@.take(i as int)).push(
            s@[i as int] as u8,
        ));
        i += 1;
    }
    assert(s@.take(s@.len() as int) == s@);
    v
}

/// Similarity of two normalized titles, in units of 2^-91; see `similarity_of`.
pub fn similarity(a: &[char], b: &[char]) -> (r: u128)
    ensures
        r as nat == similarity_of(a@, b@),
        r <= two_pow(91),
{
    proof {
        lemma_two_pow_constants();
    }
    let la = a.len() as u128;
    let lb = b.len() as u128;
    let longer = if la >= lb {
        la
    } else {
        lb
    };
    let shorter = if la <= lb {
        la
    } else {
        lb
    };
    if chars_eq(a, b) {
        return 0x800_0000_0000_0000_0000_0000;
    }
    if la == 0 && lb == 0 {
        assert(a@ =~= b@);
    }
    if contains_chars(b, a) || contains_chars(a, b) {
        let q = quotient_exec(shorter, longer);
        let (_, _, scaled) = round_exec(16106127 * q, 0x800_0000);
        assert((16106127 * q) / 0x800_0000 <= 16106127 * 0x1_0000_0000_0000_0000) by (
        nonlinear_arith)
            requires
                q <= 0x800_0000_0000_0000_0000_0000,
        ;
        proof {
            // 0.12 * q is at most 0.12, so the sum is below one.
            assert(16106127 * 0x800_0000_0000_0000_0000_0000 < two_pow(27) * two_pow(100));
            lemma_round_binary32_monotone(
                16106127 * q as nat,
                16106127 * 0x800_0000_0000_0000_0000_0000,
                two_pow(27),
            );
            lemma_round_exact(16106127, 64, two_pow(27));
            lemma_two_pow_add(64, 27);
        }
        assert(scaled <= 0xf5_c28f_0000_0000_0000_0000);
        let (_, _, v) = round_exec(0x70a_3d70_0000_0000_0000_0000 + scaled, 1);
        return v;
    }
    if a.len() == 0 {
        assert(b@.subrange(0, 0) =~= a@);
        assert(occurs_at(b@, a@, 0));
    }
    if b.len() == 0 {
        assert(a@.subrange(0, 0) =~= b@);
        assert(occurs_at(a@, b@, 0));
    }
    let ca = codes_of(a);
    let cb = codes_of(b);
    let d = levenshtein(ca.as_slice(), cb.as_slice());
    proof {
        lemma_edit_distance_bound(ca@, cb@, ca@.len(), cb@.len());
    }
    let ratio = quotient_exec(d as u128, longer);
    let (_, _, v) = round_exec(0x800_0000_0000_0000_0000_0000 - ratio, 1);
    v
}

use crate::text::{chars_eq, occurs_at};

} // verus!

verus! {

/// The names a game is matched by, in order: title, id, then aliases.
pub open spec fn game_candidates(g: Game) -> Seq<Seq<char>> {
    seq![g.title@, g.id@] + g.aliases@.map_values(|s: &'static str| s@)
}

/// Every (game index, name) pair of a game list, in catalog order.
pub open spec fn candidates_of(gs: Seq<Game>) -> Seq<(int, Seq<char>)>
    decreases gs.len(),
{
    if gs.len() == 0 {
        seq![]
    } else {
        candidates_of(gs.drop_last()) + game_candidates(gs.last()).map_values(
            |c: Seq<char>| ((gs.len() - 1) as int, c),
        )
    }
}

proof fn lemma_candidates_bound(gs: Seq<Game>)
    ensures
        forall|k: int|
            0 <= k < candidates_of(gs).len() ==> 0 <= #[trigger] candidates_of(gs)[k].0 < gs.len(),
    decreases gs.len(),
{
    if gs.len() > 0 {
        lemma_candidates_bound(gs.drop_last());
        let pre = candidates_of(gs.drop_last());
        let added = game_candidates(gs.last()).map_values(
            |c: Seq<char>| ((gs.len() - 1) as int, c),
        );
        assert(candidates_of(gs) == pre + added);
        assert forall|k: int| 0 <= k < candidates_of(gs).len() implies 0
            <= #[trigger] candidates_of(gs)[k].0 < gs.len() by {
            if k < pre.len() {
                assert(candidates_of(gs)[k] == pre[k]);
            } else {
                assert(candidates_of(gs)[k] == added[k - pre.len()]);
            }
        }
    }
}

fn candidate_list(gs: &Vec<Game>) -> (v: Vec<(usize, &'static str)>)
    ensures
        v@.len() == candidates_of(gs@).len(),
        forall|k: int|
            0 <= k < v@.len() ==> (#[trigger] v@[k]).0 == candidates_of(gs@)[k].0 && v@[k].1@
                == candidates_of(gs@)[k].1,
{
    let mut v: Vec<(usize, &'static str)> = Vec::new();
    let mut i: usize = 0;
    while i < gs.len()
        invariant
            i <= gs@.len(),
            v@.len() == candidates_of(gs@.take(i as int)).len(),
            forall|k: int|
                0 <= k < v@.len() ==> (#[trigger] v@[k]).0 == candidates_of(gs@.take(i as int))[k].0
                    && v@[k].1@ == candidates_of(gs@.take(i as int))[k].1,
        decreases gs@.len() - i,
    {
        let g = gs[i];
        let ghost before = candidates_of(gs@.take(i as int));
        let ghost added = game_candidates(g).map_values(|c: Seq<char>| (i as int, c));
        assert(gs@.take(i + 1).drop_last() == gs@.take(i as int));
        assert(candidates_of(gs@.take(i + 1)) == before + added);
        let ghost start = v@.len();
        v.push((i, g.title));
        v.push((i, g.id));
        let mut k: usize = 0;
        while k < g.aliases.len()
            invariant
                k <= g.aliases@.len(),
                start == before.len(),
                added == game_candidates(g).map_values(|c: Seq<char>| (i as int, c)),
                v@.len() == start + 2 + k,
                forall|t: int|
                    0 <= t < start ==> (#[trigger] v@[t]).0 == before[t].0 && v@[t].1@
                        == before[t].1,
                forall|t: int|
                    0 <= t < 2 + k ==> (#[trigger] v@[start + t]).0 == added[t].0 && v@[start
                        + t].1@ == added[t].1,
            decreases g.aliases@.len() - k,
        {
            v.push((i, g.aliases[k]));
            k += 1;
        }
        assert forall|t: int| 0 <= t < v@.len() implies (#[trigger] v@[t]).0 == (before + added)[t].0
            && v@[t].1@ == (before + added)[t].1 by {
            if t >= start {
                assert(v@[start + (t - start)] == v@[t]);
            }
        }
        i += 1;
    }
    assert(gs@.take(gs@.len() as int) == gs@);
    v
}

/// Similarity of the normalized query to the normalized name of a candidate.
pub open spec fn match_score(needle: Seq<char>, name: Seq<char>) -> nat {
    similarity_of(needle, normalized(name))
}

/// Candidate `k` has the highest score and no earlier candidate has the same score.
pub open spec fn is_best_match(needle: Seq<char>, cs: Seq<(int, Seq<char>)>, k: int) -> bool {
    &&& 0 <= k < cs.len()
    &&& forall|j: int|
        0 <= j < cs.len() ==> #[trigger] match_score(needle, cs[j].1) <= match_score(
            needle,
            cs[k].1,
        )
    &&& forall|j: int|
        0 <= j < k ==> #[trigger] match_score(needle, cs[j].1) < match_score(needle, cs[k].1)
}

/// A score reaches the acceptance threshold, 0.48 as an `f32` (16106127 * 2^-25).
pub open spec fn accepted(s: nat) -> bool {
    s >= 16106127 * two_pow(66)
}

/// `(score * 100.0).round() as u8` in `f32`: the product rounded to `f32`, then to the
/// nearest integer with halves away from zero, then saturated at 255.
pub open spec fn rounded_percent(s: nat) -> nat {
    let c = (round_binary32(100 * s, 1) + two_pow(90)) / two_pow(91);
    if c > 255 {
        255
    } else {
        c
    }
}

/// What `resolve` answers for `query`: `None` when the normalized query is empty or no
/// candidate reaches the threshold; otherwise the game of the best candidate (the first one on
/// ties) and its similarity as a rounded percentage.
pub open spec fn resolves_to(query: Seq<char>, r: Option<(Game, u8)>) -> bool {
    let needle = normalized(query);
    let cs = candidates_of(catalog());
    match r {
        None => needle.len() == 0 || forall|k: int|
            0 <= k < cs.len() ==> !accepted(#[trigger] match_score(needle, cs[k].1)),
        Some((g, c)) => needle.len() > 0 && exists|k: int|
            #![trigger cs[k]]
            is_best_match(needle, cs, k) && accepted(match_score(needle, cs[k].1)) && g
                == catalog()[cs[k].0] && c == rounded_percent(match_score(needle, cs[k].1)),
    }
}

/// `(score * 100.0).round() as u8` for a score in units of 2^-91; see `rounded_percent`.
pub fn percent_of(score: u128) -> (c: u8)
    requires
        score <= 0x2000_0000_0000_0000_0000_0000,
    ensures
        c as nat == rounded_percent(score as nat),
        accepted(score as nat) && score <= two_pow(91) ==> 48 <= c <= 100,
{
    proof {
        lemma_two_pow_constants();
    }
    let (_, _, p) = round_exec(100 * score, 1);
    proof {
        if accepted(score as nat) && score <= two_pow(91) {
            // Between 47.99999 (12582911 * 2^-18) and 100, both `f32` values.
            lemma_round_binary32_monotone(100 * score as nat, 13107200 * two_pow(74), 1);
            lemma_round_exact(13107200, 74, 1);
            lemma_round_binary32_monotone(12582911 * two_pow(73), 100 * score as nat, 1);
            lemma_round_exact(12582911, 73, 1);
            assert(0x1_7fff_fe00_0000_0000_0000_0000 <= p <= 0x3_2000_0000_0000_0000_0000_0000);
        }
    }
    let c = (p + 0x400_0000_0000_0000_0000_0000) / 0x800_0000_0000_0000_0000_0000;
    if c > 255 {
        255
    } else {
        c as u8
    }
}

/// Resolves a free-text query to a catalog game and a match confidence in percent.
/// The query and every title, id and alias are normalized; the candidate with the highest
/// `f32` similarity wins (the first one on ties), if that similarity is at least 0.48.
pub fn resolve(query: &str) -> (r: Option<(Game, u8)>)
    ensures
        resolves_to(query@, r),
        match r {
            Some((_, c)) => 48 <= c <= 100,
            None => true,
        },
{
    let needle_string = normalize(query);
    let needle = chars_of(needle_string.as_str());
    let ghost cs = candidates_of(catalog());
    if needle.len() == 0 {
        return None;
    }
    let gs = games();
    let cands = candidate_list(&gs);
    proof {
        lemma_candidates_bound(catalog());
        lemma_two_pow_constants();
    }
    let mut best: usize = 0;
    let mut best_score: u128 = 0;
    let mut k: usize = 0;
    while k < cands.len()
        invariant
            k <= cands@.len(),
            cands@.len() == cs.len(),
            cs == candidates_of(catalog()),
            gs@ == catalog(),
            needle@ == normalized(query@),
            forall|t: int|
                0 <= t < cands@.len() ==> (#[trigger] cands@[t]).0 == cs[t].0 && cands@[t].1@
                    == cs[t].1,
            k > 0 ==> best < k,
            k > 0 ==> best_score as nat == match_score(needle@, cs[best as int].1),
            best_score <= two_pow(91),
            k > 0 ==> forall|j: int|
                0 <= j < k ==> #[trigger] match_score(needle@, cs[j].1) <= best_score,
            k > 0 ==> forall|j: int|
                0 <= j < best ==> #[trigger] match_score(needle@, cs[j].1) < best_score,
        decreases cands@.len() - k,
    {
        let name = normalize(cands[k].1);
        let name_chars = chars_of(name.as_str());
        let score = similarity(needle.as_slice(), name_chars.as_slice());
        assert(cands@[k as int].1@ == cs[k as int].1);
        if k == 0 || score > best_score {
            best = k;
            best_score = score;
        }
        k += 1;
    }
    if cands.len() == 0 {
        assert(cs.len() == 0);
        return None;
    }
    assert(is_best_match(needle@, cs, best as int));
    if best_score >= 0x3d7_0a3c_0000_0000_0000_0000 {
        let pct = percent_of(best_score);
        let game = gs[cands[best].0];
        Some((game, pct))
    } else {
        assert forall|j: int| 0 <= j < cs.len() implies !accepted(
            #[trigger] match_score(needle@, cs[j].1),
        ) by {}
        None
    }
}

/// When one title contains the other, their similarity is `0.88 + 0.12 * shorter / longer`,
/// which is at least 0.88 (as an `f32`, 7381975 * 2^-23).
pub proof fn law_containment_scores_at_least_088(a: Seq<char>, b: Seq<char>)
    requires
        a.len() < 0x1_0000_0000_0000_0000,
        b.len() < 0x1_0000_0000_0000_0000,
        contains(b, a) || contains(a, b),
    ensures
        similarity_of(a, b) >= 7381975 * two_pow(68),
{
    lemma_two_pow_constants();
    assert(two_pow(68) == 2 * two_pow(67));
    if a != b {
        let longer = if a.len() >= b.len() {
            a.len()
        } else {
            b.len()
        };
        let shorter = if a.len() <= b.len() {
            a.len()
        } else {
            b.len()
        };
        if a.len() == 0 && b.len() == 0 {
            assert(a =~= b);
        }
        lemma_quotient_at_most_one(shorter, longer);
        let q = quotient32(shorter, longer);
        assert(16106127 * 0x800_0000_0000_0000_0000_0000 < two_pow(27) * two_pow(100));
        lemma_round_binary32_monotone(
            16106127 * q,
            16106127 * 0x800_0000_0000_0000_0000_0000,
            two_pow(27),
        );
        lemma_round_exact(16106127, 64, two_pow(27));
        lemma_two_pow_add(64, 27);
        let scaled = round_binary32(16106127 * q, two_pow(27));
        assert(scaled <= 0xf5_c28f_0000_0000_0000_0000);
        lemma_round_exact(14763950, 67, 1);
        assert(14763950 * two_pow(67) * 1 == 7381975 * two_pow(68));
        lemma_round_binary32_monotone(7381975 * two_pow(68), 7381975 * two_pow(68) + scaled, 1);
    }
}

/// A score of at least 0.88 (and at most one) is reported as a confidence of at least 88.
pub proof fn law_confidence_of_high_score(s: nat)
    requires
        7381975 * two_pow(68) <= s <= two_pow(91),
    ensures
        rounded_percent(s) >= 88,
{
    lemma_two_pow_constants();
    // 100 * s is at least 11534335 * 2^74, an `f32` value of 87.99999 units of 2^91.
    assert(11534335 * two_pow(74) <= 100 * s);
    lemma_round_exact(11534335, 74, 1);
    lemma_round_binary32_monotone(11534335 * two_pow(74), 100 * s, 1);
    assert(round_binary32(100 * s, 1) >= 0x1_5fff_fe00_0000_0000_0000_0000);
}

/// A query whose normalized form contains a candidate's normalized name, or is contained in
/// it, always resolves, with a confidence of at least 88. (Lengths below 2^64 are those that a
/// `String` can have.)
pub proof fn law_contained_name_resolves(query: Seq<char>, r: Option<(Game, u8)>, k: int)
    requires
        resolves_to(query, r),
        normalized(query).len() > 0,
        normalized(query).len() < 0x1_0000_0000_0000_0000,
        forall|j: int|
            0 <= j < candidates_of(catalog()).len() ==> (#[trigger] normalized(
                candidates_of(catalog())[j].1,
            )).len() < 0x1_0000_0000_0000_0000,
        0 <= k < candidates_of(catalog()).len(),
        contains(normalized(query), normalized(candidates_of(catalog())[k].1)) || contains(
            normalized(candidates_of(catalog())[k].1),
            normalized(query),
        ),
    ensures
        r matches Some((_, c)) && c >= 88,
{
    let needle = normalized(query);
    let cs = candidates_of(catalog());
    let name = normalized(cs[k].1);
    assert(name.len() < 0x1_0000_0000_0000_0000);
    law_containment_scores_at_least_088(needle, name);
    lemma_two_pow_constants();
    assert(accepted(match_score(needle, cs[k].1)));
    match r {
        None => {
            assert(!accepted(match_score(needle, cs[k].1)));
        },
        Some((g, c)) => {
            let k0 = choose|k0: int|
                #![trigger cs[k0]]
                is_best_match(needle, cs, k0) && accepted(match_score(needle, cs[k0].1)) && g
                    == catalog()[cs[k0].0] && c == rounded_percent(match_score(needle, cs[k0].1));
            assert(match_score(needle, cs[k].1) <= match_score(needle, cs[k0].1));
            assert(normalized(cs[k0].1).len() < 0x1_0000_0000_0000_0000);
            law_similarity_at_most_one(needle, normalized(cs[k0].1));
            law_confidence_of_high_score(match_score(needle, cs[k0].1));
        },
    }
}

} // verus!
