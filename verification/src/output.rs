//! The two renderings of an assessment: a human-readable report and a JSON document.
use vstd::prelude::*;

use crate::assess::{fps_views, Assessment, Status, Verdict};
use crate::catalog::{Game, LinuxSupport};
use crate::hardware::Hardware;
use crate::text::{
    chars_of, contains, decimal, decimal_string, occurs_at, push_char, push_str, string_views,
};

verus! {

/// The mark shown for a check in the human report.
pub open spec fn status_mark(status: Status) -> &'static str {
    match status {
        Status::Pass => "✓",
        Status::Borderline => "⚠",
        Status::Fail => "✗",
        Status::Unknown => "~",
    }
}

/// The mark shown for a check in the human report.
pub fn status_label(status: Status) -> (r: &'static str)
    ensures
        r == status_mark(status),
{
    match status {
        Status::Pass => "✓",
        Status::Borderline => "⚠",
        Status::Fail => "✗",
        Status::Unknown => "~",
    }
}

/// The verdict line of the human report.
pub open spec fn verdict_text(verdict: Verdict) -> &'static str {
    match verdict {
        Verdict::Run => "🟢 RUN",
        Verdict::Compromises => "🟡 RUN WITH COMPROMISES",
        Verdict::DontRun => "🔴 DON'T RUN",
    }
}

/// The verdict line of the human report.
pub fn verdict_label(verdict: Verdict) -> (r: &'static str)
    ensures
        r == verdict_text(verdict),
{
    match verdict {
        Verdict::Run => "🟢 RUN",
        Verdict::Compromises => "🟡 RUN WITH COMPROMISES",
        Verdict::DontRun => "🔴 DON'T RUN",
    }
}

/// The name of a check outcome in JSON.
pub open spec fn status_name(status: Status) -> &'static str {
    match status {
        Status::Pass => "pass",
        Status::Borderline => "borderline",
        Status::Fail => "fail",
        Status::Unknown => "unknown",
    }
}

/// The name of a check outcome in JSON.
pub fn status_json(status: Status) -> (r: &'static str)
    ensures
        r == status_name(status),
{
    match status {
        Status::Pass => "pass",
        Status::Borderline => "borderline",
        Status::Fail => "fail",
        Status::Unknown => "unknown",
    }
}

/// The name of a verdict in JSON.
pub open spec fn verdict_name(verdict: Verdict) -> &'static str {
    match verdict {
        Verdict::Run => "run",
        Verdict::Compromises => "run_with_compromises",
        Verdict::DontRun => "dont_run",
    }
}

/// The name of a verdict in JSON.
pub fn verdict_json(verdict: Verdict) -> (r: &'static str)
    ensures
        r == verdict_name(verdict),
{
    match verdict {
        Verdict::Run => "run",
        Verdict::Compromises => "run_with_compromises",
        Verdict::DontRun => "dont_run",
    }
}

/// The name of a Linux support level in JSON.
pub open spec fn linux_name(support: LinuxSupport) -> &'static str {
    match support {
        LinuxSupport::Native => "native",
        LinuxSupport::ProtonGood => "proton_good",
        LinuxSupport::ProtonMixed => "proton_mixed",
    }
}

/// The name of a Linux support level in JSON.
pub fn linux_json(support: LinuxSupport) -> (r: &'static str)
    ensures
        r == linux_name(support),
{
    match support {
        LinuxSupport::Native => "native",
        LinuxSupport::ProtonGood => "proton_good",
        LinuxSupport::ProtonMixed => "proton_mixed",
    }
}

/// A Unicode control character (general category Cc): U+0000 to U+001F and U+007F to U+009F.
pub open spec fn is_control(c: char) -> bool {
    (c as u32) <= 0x1F || (0x7F <= (c as u32) && (c as u32) <= 0x9F)
}

/// How one character is written inside a JSON string: a double quote, a backslash and a line
/// feed are escaped with a backslash, other control characters are dropped.
pub open spec fn escape_char(c: char) -> Seq<char> {
    if c == '"' {
        seq!['\\', '"']
    } else if c == '\\' {
        seq!['\\', '\\']
    } else if c == '\n' {
        seq!['\\', 'n']
    } else if is_control(c) {
        seq![]
    } else {
        seq![c]
    }
}

/// A text as it is written inside a JSON string.
pub open spec fn escaped(s: Seq<char>) -> Seq<char>
    decreases s.len(),
{
    if s.len() == 0 {
        seq![]
    } else {
        escaped(s.drop_last()) + escape_char(s.last())
    }
}

/// Escapes a text for a JSON string.
pub fn escape(value: &str) -> (r: String)
    ensures
        r@ == escaped(value@),
{
    let cs = chars_of(value);
    let mut out = String::new();
    let mut i: usize = 0;
    while i < cs.len()
        invariant
            i <= cs@.len(),
            cs@ == value@,
            out@ == escaped(cs@.take(i as int)),
        decreases cs@.len() - i,
    {
        let c = cs[i];
        assert(cs@.take(i + 1).drop_last() =~= cs@.take(i as int));
        assert(cs@.take(i + 1).last() == c);
        let u = c as u32;
        if c == '"' {
            push_char(&mut out, '\\');
            push_char(&mut out, '"');
        } else if c == '\\' {
            push_char(&mut out, '\\');
            push_char(&mut out, '\\');
        } else if c == '\n' {
            push_char(&mut out, '\\');
            push_char(&mut out, 'n');
        } else if u <= 0x1F || (0x7F <= u && u <= 0x9F) {
        } else {
            push_char(&mut out, c);
        }
        assert(out@ =~= escaped(cs@.take(i + 1)));
        i += 1;
    }
    assert(cs@.take(cs@.len() as int) =~= cs@);
    out
}

/// `n` spaces.
pub open spec fn spaces(n: nat) -> Seq<char> {
    Seq::new(n, |i: int| ' ')
}

/// Left-aligned in a field of `width` characters, as `{:<width}` formats it.
pub open spec fn pad(s: Seq<char>, width: nat) -> Seq<char> {
    if s.len() < width {
        s + spaces((width - s.len()) as nat)
    } else {
        s
    }
}

fn push_padded(out: &mut String, s: &str, width: usize)
    ensures
        final(out)@ == old(out)@ + pad(s@, width as nat),
{
    let n = chars_of(s).len();
    push_str(out, s);
    let mut k = n;
    let ghost start = old(out)@ + s@;
    while k < width
        invariant
            n == s@.len(),
            n <= k <= width || (n >= width && k == n),
            out@ == start + spaces((k - n) as nat),
        decreases width - k,
    {
        push_char(out, ' ');
        assert(spaces((k + 1 - n) as nat) =~= spaces((k - n) as nat).push(' '));
        k += 1;
    }
    if n < width {
        assert(k == width);
    } else {
        assert(spaces(0) =~= Seq::<char>::empty());
    }
}

/// One line of the SYSTEM section: label, value and mark.
pub open spec fn row_text(label: Seq<char>, value: Seq<char>, status: Status) -> Seq<char> {
    "  "@ + pad(label, 12) + " "@ + pad(value, 32) + " "@ + status_mark(status)@ + "\n"@
}

/// Appends one line of the SYSTEM section.
pub fn row(out: &mut String, label: &str, value: &str, status: Status)
    ensures
        final(out)@ == old(out)@ + row_text(label@, value@, status),
{
    push_str(out, "  ");
    push_padded(out, label, 12);
    push_str(out, " ");
    push_padded(out, value, 32);
    push_str(out, " ");
    push_str(out, status_label(status));
    push_str(out, "\n");
    assert(out@ =~= old(out)@ + row_text(label@, value@, status));
}

/// The VRAM value of the report: "<n> GB", or "Unknown".
pub open spec fn vram_text(v: Option<u16>) -> Seq<char> {
    match v {
        Some(g) => decimal(g as nat) + " GB"@,
        None => "Unknown"@,
    }
}

/// The SYSTEM section of the human report.
pub open spec fn system_section(game: Game, hw: Hardware, r: Assessment) -> Seq<char> {
    "SYSTEM\n"@ + row_text(
        "CPU"@,
        hw.cpu_name@ + " ("@ + decimal(hw.logical_cores as nat) + " threads)"@,
        r.cpu,
    ) + row_text("GPU"@, hw.gpu_name@, r.gpu) + row_text("VRAM"@, vram_text(hw.vram_gb), r.vram)
        + row_text("RAM"@, decimal(hw.ram_gb as nat) + " GB"@, r.ram) + row_text(
        "Storage"@,
        decimal(hw.storage_gb as nat) + " GB available"@,
        r.storage,
    ) + row_text("OS"@, hw.os@, r.os) + row_text("Graphics API"@, game.api@, r.api)
}

/// Decimal notation of a `u16` as a `String`.
fn number(n: u16) -> (s: String)
    ensures
        s@ == decimal(n as nat),
{
    decimal_string(n as u64)
}

fn system_values(hw: &Hardware) -> (v: (String, String, String, String))
    ensures
        v.0@ == hw.cpu_name@ + " ("@ + decimal(hw.logical_cores as nat) + " threads)"@,
        v.1@ == vram_text(hw.vram_gb),
        v.2@ == decimal(hw.ram_gb as nat) + " GB"@,
        v.3@ == decimal(hw.storage_gb as nat) + " GB available"@,
{
    let mut cpu = hw.cpu_name.clone();
    push_str(&mut cpu, " (");
    push_str(&mut cpu, number(hw.logical_cores).as_str());
    push_str(&mut cpu, " threads)");
    let vram = match hw.vram_gb {
        Some(v) => {
            let mut t = number(v);
            push_str(&mut t, " GB");
            t
        },
        None => {
            let mut t = String::new();
            push_str(&mut t, "Unknown");
            assert(t@ =~= "Unknown"@);
            t
        },
    };
    let mut ram = number(hw.ram_gb);
    push_str(&mut ram, " GB");
    let mut storage = number(hw.storage_gb);
    push_str(&mut storage, " GB available");
    (cpu, vram, ram, storage)
}

#[verifier::rlimit(30)]
fn system_rows(out: &mut String, game: &Game, hw: &Hardware, r: &Assessment)
    ensures
        final(out)@ == old(out)@ + system_section(*game, *hw, *r),
{
    let (cpu, vram, ram, storage) = system_values(hw);
    push_str(out, "SYSTEM\n");
    let ghost s0 = out@;
    row(out, "CPU", cpu.as_str(), r.cpu);
    row(out, "GPU", hw.gpu_name.as_str(), r.gpu);
    row(out, "VRAM", vram.as_str(), r.vram);
    let ghost s3 = out@;
    assert(s3 =~= s0 + row_text("CPU"@, cpu@, r.cpu) + row_text("GPU"@, hw.gpu_name@, r.gpu)
        + row_text("VRAM"@, vram@, r.vram));
    row(out, "RAM", ram.as_str(), r.ram);
    row(out, "Storage", storage.as_str(), r.storage);
    row(out, "OS", hw.os.as_str(), r.os);
    row(out, "Graphics API", game.api, r.api);
    assert(out@ =~= s3 + row_text("RAM"@, ram@, r.ram) + row_text("Storage"@, storage@, r.storage)
        + row_text("OS"@, hw.os@, r.os) + row_text("Graphics API"@, game.api@, r.api));
    assert(out@ =~= old(out)@ + system_section(*game, *hw, *r));
}

/// The lines of the ESTIMATED PERFORMANCE section: "  <label padded to 20> ~<fps> FPS".
pub open spec fn fps_lines(fps: Seq<(Seq<char>, u16)>) -> Seq<char>
    decreases fps.len(),
{
    if fps.len() == 0 {
        seq![]
    } else {
        fps_lines(fps.drop_last()) + "  "@ + pad(fps.last().0, 20) + " ~"@ + decimal(
            fps.last().1 as nat,
        ) + " FPS\n"@
    }
}

/// The ESTIMATED PERFORMANCE section, absent when there is no estimate.
pub open spec fn fps_section(fps: Seq<(Seq<char>, u16)>) -> Seq<char> {
    if fps.len() == 0 {
        seq![]
    } else {
        "\nESTIMATED PERFORMANCE\n"@ + fps_lines(fps)
    }
}

fn push_fps(out: &mut String, fps: &Vec<(String, u16)>)
    ensures
        final(out)@ == old(out)@ + fps_section(fps_views(fps@)),
{
    if fps.len() == 0 {
        assert(out@ =~= old(out)@ + fps_section(fps_views(fps@)));
        return;
    }
    push_str(out, "\nESTIMATED PERFORMANCE\n");
    let ghost head = old(out)@ + "\nESTIMATED PERFORMANCE\n"@;
    let mut i: usize = 0;
    while i < fps.len()
        invariant
            i <= fps@.len(),
            out@ == head + fps_lines(fps_views(fps@).take(i as int)),
        decreases fps@.len() - i,
    {
        let ghost before = out@;
        push_str(out, "  ");
        push_padded(out, fps[i].0.as_str(), 20);
        push_str(out, " ~");
        push_str(out, number(fps[i].1).as_str());
        push_str(out, " FPS\n");
        assert(fps_views(fps@).take(i + 1).drop_last() =~= fps_views(fps@).take(i as int));
        assert(fps_views(fps@).take(i + 1).last() == (fps@[i as int].0@, fps@[i as int].1));
        assert(out@ =~= head + fps_lines(fps_views(fps@).take(i + 1)));
        i += 1;
    }
    assert(fps_views(fps@).take(fps@.len() as int) =~= fps_views(fps@));
    assert(out@ =~= old(out)@ + fps_section(fps_views(fps@)));
}

/// The lines of the NOTES section: "  • <note>".
pub open spec fn note_lines(notes: Seq<Seq<char>>) -> Seq<char>
    decreases notes.len(),
{
    if notes.len() == 0 {
        seq![]
    } else {
        note_lines(notes.drop_last()) + "  • "@ + notes.last() + "\n"@
    }
}

/// The NOTES section, absent when there is no note.
pub open spec fn notes_section(notes: Seq<Seq<char>>) -> Seq<char> {
    if notes.len() == 0 {
        seq![]
    } else {
        "\nNOTES\n"@ + note_lines(notes)
    }
}

fn push_notes(out: &mut String, notes: &Vec<String>)
    ensures
        final(out)@ == old(out)@ + notes_section(string_views(notes@)),
{
    if notes.len() == 0 {
        assert(out@ =~= old(out)@ + notes_section(string_views(notes@)));
        return;
    }
    push_str(out, "\nNOTES\n");
    let ghost head = old(out)@ + "\nNOTES\n"@;
    let mut i: usize = 0;
    while i < notes.len()
        invariant
            i <= notes@.len(),
            out@ == head + note_lines(string_views(notes@).take(i as int)),
        decreases notes@.len() - i,
    {
        push_str(out, "  • ");
        push_str(out, notes[i].as_str());
        push_str(out, "\n");
        assert(string_views(notes@).take(i + 1).drop_last() =~= string_views(notes@).take(
            i as int,
        ));
        assert(string_views(notes@).take(i + 1).last() == notes@[i as int]@);
        assert(out@ =~= head + note_lines(string_views(notes@).take(i + 1)));
        i += 1;
    }
    assert(string_views(notes@).take(notes@.len() as int) =~= string_views(notes@));
    assert(out@ =~= old(out)@ + notes_section(string_views(notes@)));
}

/// The REQUIREMENTS section of the human report.
pub open spec fn requirements_section(game: Game) -> Seq<char> {
    "\nREQUIREMENTS\n"@ + "  Minimum       "@ + game.minimum_label@ + "\n"@ + "  Recommended   "@
        + game.recommended_label@ + "\n"@ + "  RAM / storage "@ + decimal(game.minimum.ram_gb as nat)
        + " GB / "@ + decimal(game.storage_gb as nat) + " GB\n"@
}

/// The VERDICT section of the human report.
pub open spec fn verdict_section(r: Assessment) -> Seq<char> {
    "\nVERDICT\n"@ + "  "@ + verdict_text(r.verdict)@ + "\n"@ + "  Confidence: "@ + decimal(
        r.confidence as nat,
    ) + "%\n"@ + "  Primary bottleneck: "@ + r.bottleneck@ + "\n"@
}

/// The human-readable report.
pub open spec fn human_text(game: Game, hw: Hardware, r: Assessment) -> Seq<char> {
    "Ciri — Can I Run It?\n────────────────────────────────────────────────────────\n"@
        + "Game: "@ + game.title@ + "\n\n"@ + system_section(game, hw, r) + requirements_section(
        game,
    ) + fps_section(fps_views(r.fps@)) + verdict_section(r) + notes_section(
        string_views(r.notes@),
    )
}

fn push_requirements(out: &mut String, game: &Game)
    ensures
        final(out)@ == old(out)@ + requirements_section(*game),
{
    push_str(out, "\nREQUIREMENTS\n");
    push_str(out, "  Minimum       ");
    push_str(out, game.minimum_label);
    push_str(out, "\n");
    push_str(out, "  Recommended   ");
    push_str(out, game.recommended_label);
    push_str(out, "\n");
    push_str(out, "  RAM / storage ");
    push_str(out, number(game.minimum.ram_gb).as_str());
    push_str(out, " GB / ");
    push_str(out, number(game.storage_gb).as_str());
    push_str(out, " GB\n");
    assert(out@ =~= old(out)@ + requirements_section(*game));
}

fn push_verdict(out: &mut String, result: &Assessment)
    ensures
        final(out)@ == old(out)@ + verdict_section(*result),
{
    push_str(out, "\nVERDICT\n");
    push_str(out, "  ");
    push_str(out, verdict_label(result.verdict));
    push_str(out, "\n");
    push_str(out, "  Confidence: ");
    push_str(out, number(result.confidence as u16).as_str());
    push_str(out, "%\n");
    push_str(out, "  Primary bottleneck: ");
    push_str(out, result.bottleneck);
    push_str(out, "\n");
    assert(out@ =~= old(out)@ + verdict_section(*result));
}

/// The human-readable report of an assessment.
pub fn human(game: &Game, hw: &Hardware, result: &Assessment) -> (out: String)
    ensures
        out@ == human_text(*game, *hw, *result),
{
    let mut out = String::new();
    push_str(
        &mut out,
        "Ciri — Can I Run It?\n────────────────────────────────────────────────────────\n",
    );
    push_str(&mut out, "Game: ");
    push_str(&mut out, game.title);
    push_str(&mut out, "\n\n");
    system_rows(&mut out, game, hw, result);
    push_requirements(&mut out, game);
    push_fps(&mut out, &result.fps);
    push_verdict(&mut out, result);
    push_notes(&mut out, &result.notes);
    assert(out@ =~= human_text(*game, *hw, *result));
    out
}

/// Items separated by commas.
pub open spec fn joined(items: Seq<Seq<char>>) -> Seq<char>
    decreases items.len(),
{
    if items.len() == 0 {
        seq![]
    } else if items.len() == 1 {
        items[0]
    } else {
        joined(items.drop_last()) + ","@ + items.last()
    }
}

/// One estimate in JSON: `{"profile":"<label>","fps":<value>}`.
pub open spec fn fps_item(p: (Seq<char>, u16)) -> Seq<char> {
    "{\"profile\":\""@ + escaped(p.0) + "\",\"fps\":"@ + decimal(p.1 as nat) + "}"@
}

/// One note in JSON: a string.
pub open spec fn note_item(n: Seq<char>) -> Seq<char> {
    "\""@ + escaped(n) + "\""@
}

/// The estimates in JSON, separated by commas.
pub open spec fn fps_json(fps: Seq<(Seq<char>, u16)>) -> Seq<char> {
    joined(fps.map_values(|p: (Seq<char>, u16)| fps_item(p)))
}

/// The notes in JSON, separated by commas.
pub open spec fn notes_json(notes: Seq<Seq<char>>) -> Seq<char> {
    joined(notes.map_values(|n: Seq<char>| note_item(n)))
}

fn push_fps_items(out: &mut String, fps: &Vec<(String, u16)>)
    ensures
        final(out)@ == old(out)@ + fps_json(fps_views(fps@)),
{
    let ghost items = fps_views(fps@).map_values(|p: (Seq<char>, u16)| fps_item(p));
    let ghost head = old(out)@;
    let mut i: usize = 0;
    while i < fps.len()
        invariant
            i <= fps@.len(),
            items == fps_views(fps@).map_values(|p: (Seq<char>, u16)| fps_item(p)),
            out@ == head + joined(items.take(i as int)),
        decreases fps@.len() - i,
    {
        if i > 0 {
            push_str(out, ",");
        }
        push_str(out, "{\"profile\":\"");
        push_str(out, escape(fps[i].0.as_str()).as_str());
        push_str(out, "\",\"fps\":");
        push_str(out, number(fps[i].1).as_str());
        push_str(out, "}");
        assert(items.take(i + 1).drop_last() =~= items.take(i as int));
        assert(items[i as int] == fps_item((fps@[i as int].0@, fps@[i as int].1)));
        assert(items.take(i + 1).last() == items[i as int]);
        if i == 0 {
            assert(items.take(1)[0] == items[0]);
            assert(joined(items.take(0)) =~= Seq::<char>::empty());
        }
        assert(out@ =~= head + joined(items.take(i + 1)));
        i += 1;
    }
    assert(items.take(fps@.len() as int) =~= items);
}

fn push_note_items(out: &mut String, notes: &Vec<String>)
    ensures
        final(out)@ == old(out)@ + notes_json(string_views(notes@)),
{
    let ghost items = string_views(notes@).map_values(|n: Seq<char>| note_item(n));
    let ghost head = old(out)@;
    let mut i: usize = 0;
    while i < notes.len()
        invariant
            i <= notes@.len(),
            items == string_views(notes@).map_values(|n: Seq<char>| note_item(n)),
            out@ == head + joined(items.take(i as int)),
        decreases notes@.len() - i,
    {
        if i > 0 {
            push_str(out, ",");
        }
        push_str(out, "\"");
        push_str(out, escape(notes[i].as_str()).as_str());
        push_str(out, "\"");
        assert(items.take(i + 1).drop_last() =~= items.take(i as int));
        assert(items[i as int] == note_item(notes@[i as int]@));
        assert(items.take(i + 1).last() == items[i as int]);
        if i == 0 {
            assert(items.take(1)[0] == items[0]);
            assert(joined(items.take(0)) =~= Seq::<char>::empty());
        }
        assert(out@ =~= head + joined(items.take(i + 1)));
        i += 1;
    }
    assert(items.take(notes@.len() as int) =~= items);
}

/// The VRAM value in JSON: a number, or `null`.
pub open spec fn vram_json(v: Option<u16>) -> Seq<char> {
    match v {
        Some(g) => decimal(g as nat),
        None => "null"@,
    }
}

/// The opening of the JSON document and its `game` object.
pub open spec fn json_game(game: Game) -> Seq<char> {
    "{\n  \"schema_version\": 1,\n  \"game\": {\"id\": \""@ + game.id@ + "\", \"title\": \""@
        + escaped(game.title@) + "\"},\n"@
}

/// The `system` object of the JSON document.
pub open spec fn json_system(hw: Hardware) -> Seq<char> {
    "  \"system\": {\"cpu\": \""@ + escaped(hw.cpu_name@) + "\", \"cpu_score\": "@ + decimal(
        hw.cpu_score as nat,
    ) + ", \"gpu\": \""@ + escaped(hw.gpu_name@) + "\", \"gpu_score\": "@ + decimal(
        hw.gpu_score as nat,
    ) + ", \"ram_gb\": "@ + decimal(hw.ram_gb as nat) + ", \"vram_gb\": "@ + vram_json(hw.vram_gb)
        + ", \"storage_available_gb\": "@ + decimal(hw.storage_gb as nat) + ", \"os\": \""@
        + escaped(hw.os@) + "\"},\n"@
}

/// The `checks` object of the JSON document.
pub open spec fn json_checks(r: Assessment) -> Seq<char> {
    "\"checks\": {"@ + check_entry(""@, "cpu"@, r.cpu) + check_entry(", "@, "gpu"@, r.gpu)
        + check_entry(", "@, "ram"@, r.ram) + check_entry(", "@, "vram"@, r.vram) + check_entry(
        ", "@,
        "storage"@,
        r.storage,
    ) + check_entry(", "@, "os"@, r.os) + check_entry(", "@, "api"@, r.api) + "}"@
}

/// The `assessment` object of the JSON document.
pub open spec fn json_assessment(r: Assessment) -> Seq<char> {
    "  \"assessment\": {\"verdict\": \""@ + verdict_name(r.verdict)@ + "\", \"confidence\": "@
        + decimal(r.confidence as nat) + ", \"bottleneck\": \""@ + r.bottleneck@ + "\", "@
        + json_checks(r) + ", \"estimated_performance\": ["@ + fps_json(fps_views(r.fps@))
        + "]},\n"@
}

/// The end of the JSON document: Linux support and notes.
pub open spec fn json_tail(game: Game, r: Assessment) -> Seq<char> {
    "  \"linux_support\": \""@ + linux_name(game.linux)@ + "\",\n  \"notes\": ["@ + notes_json(
        string_views(r.notes@),
    ) + "]\n}"@
}

/// The JSON document of an assessment.
pub open spec fn json_text(game: Game, hw: Hardware, r: Assessment) -> Seq<char> {
    json_game(game) + json_system(hw) + json_assessment(r) + json_tail(game, r)
}

fn push_json_game(out: &mut String, game: &Game)
    ensures
        final(out)@ == old(out)@ + json_game(*game),
{
    push_str(out, "{\n  \"schema_version\": 1,\n  \"game\": {\"id\": \"");
    push_str(out, game.id);
    push_str(out, "\", \"title\": \"");
    push_str(out, escape(game.title).as_str());
    push_str(out, "\"},\n");
    assert(out@ =~= old(out)@ + json_game(*game));
}

#[verifier::rlimit(30)]
fn push_json_system(out: &mut String, hw: &Hardware)
    ensures
        final(out)@ == old(out)@ + json_system(*hw),
{
    let vram = match hw.vram_gb {
        Some(v) => number(v),
        None => {
            let mut t = String::new();
            push_str(&mut t, "null");
            assert(t@ =~= "null"@);
            t
        },
    };
    push_str(out, "  \"system\": {\"cpu\": \"");
    push_str(out, escape(hw.cpu_name.as_str()).as_str());
    push_str(out, "\", \"cpu_score\": ");
    push_str(out, number(hw.cpu_score).as_str());
    push_str(out, ", \"gpu\": \"");
    push_str(out, escape(hw.gpu_name.as_str()).as_str());
    push_str(out, "\", \"gpu_score\": ");
    push_str(out, number(hw.gpu_score).as_str());
    push_str(out, ", \"ram_gb\": ");
    push_str(out, number(hw.ram_gb).as_str());
    push_str(out, ", \"vram_gb\": ");
    push_str(out, vram.as_str());
    push_str(out, ", \"storage_available_gb\": ");
    push_str(out, number(hw.storage_gb).as_str());
    push_str(out, ", \"os\": \"");
    push_str(out, escape(hw.os.as_str()).as_str());
    push_str(out, "\"},\n");
    assert(out@ =~= old(out)@ + json_system(*hw));
}

/// One entry of the `checks` object: `<sep>"<name>": "<status>"`.
pub open spec fn check_entry(sep: Seq<char>, name: Seq<char>, status: Status) -> Seq<char> {
    sep + "\""@ + name + "\": \""@ + status_name(status)@ + "\""@
}

fn push_check(out: &mut String, sep: &str, name: &str, status: Status)
    ensures
        final(out)@ == old(out)@ + check_entry(sep@, name@, status),
{
    push_str(out, sep);
    push_str(out, "\"");
    push_str(out, name);
    push_str(out, "\": \"");
    push_str(out, status_json(status));
    push_str(out, "\"");
    assert(out@ =~= old(out)@ + check_entry(sep@, name@, status));
}

#[verifier::rlimit(30)]
fn push_json_checks(out: &mut String, r: &Assessment)
    ensures
        final(out)@ == old(out)@ + json_checks(*r),
{
    push_str(out, "\"checks\": {");
    push_check(out, "", "cpu", r.cpu);
    push_check(out, ", ", "gpu", r.gpu);
    push_check(out, ", ", "ram", r.ram);
    push_check(out, ", ", "vram", r.vram);
    push_check(out, ", ", "storage", r.storage);
    push_check(out, ", ", "os", r.os);
    push_check(out, ", ", "api", r.api);
    push_str(out, "}");
    assert(out@ =~= old(out)@ + json_checks(*r));
}

fn push_json_assessment(out: &mut String, r: &Assessment)
    ensures
        final(out)@ == old(out)@ + json_assessment(*r),
{
    push_str(out, "  \"assessment\": {\"verdict\": \"");
    push_str(out, verdict_json(r.verdict));
    push_str(out, "\", \"confidence\": ");
    push_str(out, number(r.confidence as u16).as_str());
    push_str(out, ", \"bottleneck\": \"");
    push_str(out, r.bottleneck);
    push_str(out, "\", ");
    let ghost mid = out@;
    push_json_checks(out, r);
    push_str(out, ", \"estimated_performance\": [");
    push_fps_items(out, &r.fps);
    push_str(out, "]},\n");
    assert(out@ =~= mid + json_checks(*r) + ", \"estimated_performance\": ["@ + fps_json(
        fps_views(r.fps@),
    ) + "]},\n"@);
    assert(out@ =~= old(out)@ + json_assessment(*r));
}

/// The JSON document of an assessment.
pub fn json(game: &Game, hw: &Hardware, result: &Assessment) -> (out: String)
    ensures
        out@ == json_text(*game, *hw, *result),
{
    let mut out = String::new();
    push_json_game(&mut out, game);
    push_json_system(&mut out, hw);
    push_json_assessment(&mut out, result);
    let ghost mid = out@;
    push_str(&mut out, "  \"linux_support\": \"");
    push_str(&mut out, linux_json(game.linux));
    push_str(&mut out, "\",\n  \"notes\": [");
    push_note_items(&mut out, &result.notes);
    push_str(&mut out, "]\n}");
    assert(out@ =~= mid + json_tail(*game, *result));
    assert(out@ =~= json_text(*game, *hw, *result));
    out
}

} // verus!

verus! {

/// Escaped text holds no control character, and each double quote in it follows a backslash.
pub proof fn law_escaped_is_safe(s: Seq<char>)
    ensures
        forall|i: int| 0 <= i < escaped(s).len() ==> !is_control(#[trigger] escaped(s)[i]),
        forall|i: int|
            0 <= i < escaped(s).len() && #[trigger] escaped(s)[i] == '"' ==> i > 0 && escaped(
                s,
            )[i - 1] == '\\',
    decreases s.len(),
{
    if s.len() > 0 {
        law_escaped_is_safe(s.drop_last());
        let p = escaped(s.drop_last());
        let q = escape_char(s.last());
        assert(escaped(s) == p + q);
        assert forall|i: int| 0 <= i < escaped(s).len() implies !is_control(
            #[trigger] escaped(s)[i],
        ) by {
            if i >= p.len() {
                assert(escaped(s)[i] == q[i - p.len()]);
            } else {
                assert(escaped(s)[i] == p[i]);
            }
        }
        assert forall|i: int|
            0 <= i < escaped(s).len() && #[trigger] escaped(s)[i] == '"' implies i > 0 && escaped(
                s,
            )[i - 1] == '\\' by {
            if i >= p.len() {
                assert(escaped(s)[i] == q[i - p.len()]);
                if i > p.len() {
                    assert(escaped(s)[i - 1] == q[i - 1 - p.len()]);
                }
            } else {
                assert(escaped(s)[i] == p[i]);
                assert(escaped(s)[i - 1] == p[i - 1]);
            }
        }
    }
}

/// The JSON document of an assessment is one object: it opens with `{` and closes with `}`.
pub proof fn law_json_is_an_object(game: Game, hw: Hardware, r: Assessment)
    ensures
        json_text(game, hw, r).len() >= 2,
        json_text(game, hw, r)[0] == '{',
        json_text(game, hw, r).last() == '}',
{
    reveal_strlit("{\n  \"schema_version\": 1,\n  \"game\": {\"id\": \"");
    reveal_strlit("]\n}");
    let g = json_game(game);
    let rest = json_system(hw) + json_assessment(r);
    let t = json_tail(game, r);
    assert(json_text(game, hw, r) =~= g + rest + t);
    assert(g[0] == '{');
    assert(t.last() == '}');
}

/// The verdict line tells the verdicts apart: "RUN WITH COMPROMISES" occurs in it exactly for
/// Compromises, "DON'T RUN" exactly for DontRun, and two different verdicts never share a line.
pub proof fn law_verdict_line_names_verdict(v: Verdict, w: Verdict)
    ensures
        contains(verdict_text(v)@, "RUN WITH COMPROMISES"@) <==> v == Verdict::Compromises,
        contains(verdict_text(v)@, "DON'T RUN"@) <==> v == Verdict::DontRun,
        v != w ==> verdict_text(v)@ != verdict_text(w)@,
{
    reveal_strlit("🟢 RUN");
    reveal_strlit("🟡 RUN WITH COMPROMISES");
    reveal_strlit("🔴 DON'T RUN");
    reveal_strlit("RUN WITH COMPROMISES");
    reveal_strlit("DON'T RUN");
    let run = "🟢 RUN"@;
    let comp = "🟡 RUN WITH COMPROMISES"@;
    let dont = "🔴 DON'T RUN"@;
    let n1 = "RUN WITH COMPROMISES"@;
    let n2 = "DON'T RUN"@;
    assert(comp.subrange(2, 22) =~= n1);
    assert(occurs_at(comp, n1, 2));
    assert(dont.subrange(2, 11) =~= n2);
    assert(occurs_at(dont, n2, 2));
    // "RUN WITH COMPROMISES" is longer than the other two lines.
    assert forall|i: int| !occurs_at(run, n1, i) && !occurs_at(dont, n1, i) by {}
    // No 'D' occurs in the other two lines.
    assert forall|i: int| !occurs_at(run, n2, i) by {
        if occurs_at(run, n2, i) {
            assert(run.subrange(i, i + 9)[0] == run[i]);
            assert(run[i] == 'D');
        }
    }
    assert forall|i: int| !occurs_at(comp, n2, i) by {
        if occurs_at(comp, n2, i) {
            assert(comp.subrange(i, i + 9)[0] == comp[i]);
            assert(comp[i] == 'D');
        }
    }
    assert(run.len() != comp.len() && run.len() != dont.len() && comp.len() != dont.len());
}

} // verus!
