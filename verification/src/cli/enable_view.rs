//! What `anolisa enable` shows.

use vstd::prelude::*;

use super::context::CliContext;
use super::enable::{EnableStep, PlanArtifact, PlanComponent};
use super::ui;
use super::ui::{push_items, push_line, Line, Style};
use crate::text;
use crate::text::{cat2, cat3, chars_of, join, pad_right, push_decimal, string_of};

verus! {

/// The pieces of one line.
pub type LineView = Seq<(Style, Seq<char>)>;

// ---- what was done --------------------------------------------------------------
/// A file that was installed or found in place.
#[derive(Clone, Debug)]
pub struct InstalledFile {
    pub component: String,
    pub path: String,
    pub sha256: String,
}

/// What carrying out a plan came to.
#[derive(Clone, Debug)]
pub struct ExecuteOutcome {
    pub operation_id: String,
    pub capability: String,
    pub install_mode: String,
    pub components: Vec<String>,
    pub installed_files: Vec<InstalledFile>,
    pub state_path: String,
    pub central_log_path: String,
    pub warnings: Vec<String>,
    /// The capability was disabled with all its files in place, and no file was
    /// written.
    pub reactivated: bool,
}

/// How an outcome is shown.
pub fn outcome_step(ctx: &CliContext) -> (r: EnableStep)
    ensures
        r == (if ctx.json {
            EnableStep::ShowJson
        } else if ctx.quiet {
            EnableStep::Silent
        } else {
            EnableStep::ShowText
        }),
{
    if ctx.json {
        EnableStep::ShowJson
    } else if ctx.quiet {
        EnableStep::Silent
    } else {
        EnableStep::ShowText
    }
}

/// How many bytes a character takes in UTF-8.
pub open spec fn utf8_width(c: char) -> nat {
    let n = c as u32;
    if n < 0x80 {
        1
    } else if n < 0x800 {
        2
    } else if n < 0x1_0000 {
        3
    } else {
        4
    }
}

/// The characters that make up the first `n` bytes; `None` where there are
/// fewer bytes or a character goes beyond them.
pub open spec fn byte_prefix(s: Seq<char>, n: int) -> Option<Seq<char>>
    decreases s.len(),
{
    if n == 0 {
        Some(Seq::empty())
    } else if s.len() == 0 || utf8_width(s[0]) > n {
        None
    } else {
        match byte_prefix(s.skip(1), n - utf8_width(s[0])) {
            Some(rest) => Some(seq![s[0]] + rest),
            None => None,
        }
    }
}

/// A digest as it is shown: its first 8 bytes, or all of it where that is asked
/// for or it cannot be cut there.
pub open spec fn shown_digest(sha: Seq<char>, verbose: bool) -> Seq<char> {
    if verbose {
        sha
    } else {
        match byte_prefix(sha, 8) {
            Some(p) => p,
            None => sha,
        }
    }
}

fn width_of(c: char) -> (r: usize)
    ensures
        r == utf8_width(c),
{
    let n: u32 = c as u32;
    if n < 0x80 {
        1
    } else if n < 0x800 {
        2
    } else if n < 0x1_0000 {
        3
    } else {
        4
    }
}

fn digest_text(sha: &str, verbose: bool) -> (r: String)
    ensures
        r@ == shown_digest(sha@, verbose),
{
    if verbose {
        return sha.to_owned();
    }
    let v = chars_of(sha);
    let mut i: usize = 0;
    let mut left: usize = 8;
    assert(v@.skip(0) =~= v@);
    assert(v@.take(0) =~= Seq::empty());
    assert(byte_prefix(v@, 8) matches Some(p) ==> p =~= Seq::<char>::empty() + p);
    while left > 0
        invariant
            v@ == sha@,
            i <= v@.len(),
            left <= 8,
            match byte_prefix(v@.skip(i as int), left as int) {
                Some(p) => byte_prefix(v@, 8) == Some(v@.take(i as int) + p),
                None => byte_prefix(v@, 8) is None,
            },
            !verbose,
        decreases left,
    {
        if i == v.len() {
            return sha.to_owned();
        }
        let w: usize = width_of(v[i]);
        if w > left {
            return sha.to_owned();
        }
        proof {
            let here = v@.skip(i as int);
            assert(here[0] == v@[i as int]);
            assert(here.skip(1) =~= v@.skip(i + 1));
            match byte_prefix(v@.skip(i + 1), left - w) {
                Some(rest) => {
                    assert(v@.take(i as int) + (seq![v@[i as int]] + rest) =~= v@.take(i + 1)
                        + rest);
                },
                None => {},
            }
        }
        left = left - w;
        i = i + 1;
    }
    assert(v@.take(i as int) + Seq::<char>::empty() =~= v@.take(i as int));
    assert(v@.subrange(0, i as int) =~= v@.take(i as int));
    string_of(&v, 0, i)
}

/// The line of an installed file.
pub open spec fn file_line(f: InstalledFile, verbose: bool) -> LineView {
    seq![
        (Style::Plain, "  - "@ + f.component@ + "  "@),
        (Style::Path, f.path@),
        (Style::Plain, "  sha256="@),
        (Style::Id, shown_digest(f.sha256@, verbose)),
    ]
}

/// The headline of an outcome.
pub open spec fn outcome_headline(o: ExecuteOutcome) -> LineView {
    if o.reactivated {
        seq![
            (Style::Command, "enable"@),
            (Style::Plain, " "@ + o.capability@ + " "@),
            (Style::Good, "reactivated"@),
            (Style::Plain, " "@),
            (Style::Muted, "from disabled (no files written)"@),
        ]
    } else {
        seq![
            (Style::Command, "enable"@),
            (Style::Plain, " "@ + o.capability@ + " "@),
            (Style::Good, "succeeded"@),
        ]
    }
}

/// The warnings, under their headline; nothing where there are none.
pub open spec fn warning_lines(warnings: Seq<Seq<char>>) -> Seq<LineView> {
    if warnings.len() == 0 {
        Seq::empty()
    } else {
        seq![seq![(Style::Warn, "warnings:"@)]] + ui::item_lines(warnings)
    }
}

/// The lines that show an outcome.
pub open spec fn outcome_lines(o: ExecuteOutcome, verbose: bool) -> Seq<LineView> {
    let files_label = if o.reactivated {
        "verified_files"@
    } else {
        "installed_files"@
    };
    seq![
        outcome_headline(o),
        seq![
            (Style::Label, "operation_id:"@),
            (Style::Plain, " "@),
            (Style::Id, o.operation_id@),
        ],
        seq![(Style::Label, "install_mode:"@), (Style::Plain, " "@ + o.install_mode@)],
        seq![(Style::Header, "components:"@)],
    ] + ui::item_lines(text::texts(o.components@)) + seq![
        seq![
            (
                Style::Header,
                files_label + " ("@ + text::decimal(o.installed_files@.len()) + "):"@,
            ),
        ],
    ] + o.installed_files@.map_values(|f: InstalledFile| file_line(f, verbose)) + seq![
        seq![(Style::Label, "state:"@), (Style::Plain, " "@), (Style::Path, o.state_path@)],
        seq![
            (Style::Label, "log:"@),
            (Style::Plain, "   "@),
            (Style::Path, o.central_log_path@),
        ],
    ] + warning_lines(text::texts(o.warnings@))
}

fn one(style: Style, s: &str) -> (r: Line)
    ensures
        r@ == seq![(style, s@)],
{
    let r = Line::new().with(style, s);
    assert(r@ =~= seq![(style, s@)]);
    r
}

fn push_warnings(out: &mut Vec<Line>, warnings: &Vec<String>)
    ensures
        ui::views(final(out)@) == ui::views(old(out)@) + warning_lines(text::texts(warnings@)),
{
    let ghost before = ui::views(out@);
    if warnings.len() > 0 {
        push_line(out, one(Style::Warn, "warnings:"));
        push_items(out, warnings);
        assert(ui::views(out@) =~= before + warning_lines(text::texts(warnings@)));
    } else {
        assert(before + warning_lines(text::texts(warnings@)) =~= before);
    }
}

fn headline(o: &ExecuteOutcome) -> (r: Line)
    ensures
        r@ == outcome_headline(*o),
{
    let name = cat3(" ", o.capability.as_str(), " ");
    let start = Line::new().with(Style::Command, "enable").with(Style::Plain, name.as_str());
    let r = if o.reactivated {
        start.with(Style::Good, "reactivated").with(Style::Plain, " ").with(
            Style::Muted,
            "from disabled (no files written)",
        )
    } else {
        start.with(Style::Good, "succeeded")
    };
    assert(r@ =~= outcome_headline(*o));
    r
}

fn push_files(out: &mut Vec<Line>, files: &Vec<InstalledFile>, verbose: bool)
    ensures
        ui::views(final(out)@) == ui::views(old(out)@) + files@.map_values(
            |f: InstalledFile| file_line(f, verbose),
        ),
{
    let ghost before = ui::views(out@);
    let ghost line = |f: InstalledFile| file_line(f, verbose);
    let mut i: usize = 0;
    assert(before + files@.take(0).map_values(line) =~= before);
    while i < files.len()
        invariant
            i <= files@.len(),
            line == (|f: InstalledFile| file_line(f, verbose)),
            ui::views(out@) == before + files@.take(i as int).map_values(line),
        decreases files@.len() - i,
    {
        let f = &files[i];
        let name = cat3("  - ", f.component.as_str(), "  ");
        let sha = digest_text(f.sha256.as_str(), verbose);
        let l = Line::new().with(Style::Plain, name.as_str()).with(
            Style::Path,
            f.path.as_str(),
        ).with(Style::Plain, "  sha256=").with(Style::Id, sha.as_str());
        proof {
            assert(l@ =~= file_line(files@[i as int], verbose));
            assert(files@.take(i + 1).map_values(line) =~= files@.take(i as int).map_values(
                line,
            ).push(l@));
        }
        push_line(out, l);
        i = i + 1;
        assert(ui::views(out@) =~= before + files@.take(i as int).map_values(line));
    }
    assert(files@.take(i as int) =~= files@);
}

/// A digest is shown whole where that is asked for, and else as its first 8 bytes.
pub open spec fn digest_is_shown(sha: Seq<char>, verbose: bool, shown: Seq<char>) -> bool {
    &&& verbose ==> shown == sha
    &&& !verbose && sha.len() >= 8 && (forall|i: int|
        0 <= i < 8 ==> (#[trigger] sha[i] as u32) < 0x80) ==> shown == sha.take(8)
    &&& !verbose && sha.len() < 8 && (forall|i: int|
        0 <= i < sha.len() ==> (#[trigger] sha[i] as u32) < 0x80) ==> shown == sha
}

/// Lines show an outcome: what was done to which capability, then each thing under
/// its label.
pub open spec fn outcome_is_shown(o: ExecuteOutcome, verbose: bool, lines: Seq<LineView>) -> bool {
    let c = o.components@.len() as int;
    let f = o.installed_files@.len() as int;
    let w = o.warnings@.len() as int;
    &&& lines.len() == 7 + c + f + (if w > 0 {
        w + 1
    } else {
        0
    })
    &&& lines[0].take(3) == seq![
        (Style::Command, "enable"@),
        (Style::Plain, " "@ + o.capability@ + " "@),
        (
            Style::Good,
            if o.reactivated {
                "reactivated"@
            } else {
                "succeeded"@
            },
        ),
    ]
    &&& o.reactivated ==> lines[0].skip(3) == seq![
        (Style::Plain, " "@),
        (Style::Muted, "from disabled (no files written)"@),
    ]
    &&& !o.reactivated ==> lines[0].len() == 3
    &&& lines[1] == seq![
        (Style::Label, "operation_id:"@),
        (Style::Plain, " "@),
        (Style::Id, o.operation_id@),
    ]
    &&& lines[2] == seq![(Style::Label, "install_mode:"@), (Style::Plain, " "@ + o.install_mode@)]
    &&& lines[3] == seq![(Style::Header, "components:"@)]
    &&& forall|i: int|
        #![trigger o.components@[i]]
        0 <= i < c ==> lines[4 + i] == seq![(Style::Plain, "  - "@ + o.components@[i]@)]
    &&& lines[4 + c] == seq![
        (
            Style::Header,
            (if o.reactivated {
                "verified_files"@
            } else {
                "installed_files"@
            }) + " ("@ + text::decimal(o.installed_files@.len()) + "):"@,
        ),
    ]
    &&& forall|i: int|
        #![trigger o.installed_files@[i]]
        0 <= i < f ==> {
            let l = lines[5 + c + i];
            &&& l.len() == 4
            &&& l[0] == (Style::Plain, "  - "@ + o.installed_files@[i].component@ + "  "@)
            &&& l[1] == (Style::Path, o.installed_files@[i].path@)
            &&& l[2] == (Style::Plain, "  sha256="@)
            &&& l[3].0 == Style::Id
            &&& digest_is_shown(o.installed_files@[i].sha256@, verbose, l[3].1)
        }
    &&& lines[5 + c + f] == seq![
        (Style::Label, "state:"@),
        (Style::Plain, " "@),
        (Style::Path, o.state_path@),
    ]
    &&& lines[6 + c + f] == seq![
        (Style::Label, "log:"@),
        (Style::Plain, "   "@),
        (Style::Path, o.central_log_path@),
    ]
    &&& w > 0 ==> lines[7 + c + f] == seq![(Style::Warn, "warnings:"@)]
    &&& forall|i: int|
        #![trigger o.warnings@[i]]
        0 <= i < w ==> lines[8 + c + f + i] == seq![(Style::Plain, "  - "@ + o.warnings@[i]@)]
}

/// Every outcome is shown so.
pub proof fn outcomes_are_shown(o: ExecuteOutcome, verbose: bool)
    ensures
        outcome_is_shown(o, verbose, outcome_lines(o, verbose)),
{
    let lines = outcome_lines(o, verbose);
    let c = o.components@.len() as int;
    let f = o.installed_files@.len() as int;
    assert(lines[0] == outcome_headline(o));
    if o.reactivated {
        assert(lines[0].skip(3) =~= seq![
            (Style::Plain, " "@),
            (Style::Muted, "from disabled (no files written)"@),
        ]);
    }
    assert(lines[0].take(3) =~= seq![
        (Style::Command, "enable"@),
        (Style::Plain, " "@ + o.capability@ + " "@),
        (
            Style::Good,
            if o.reactivated {
                "reactivated"@
            } else {
                "succeeded"@
            },
        ),
    ]);
    assert forall|i: int| #![trigger o.components@[i]] 0 <= i < c implies lines[4 + i] == seq![
        (Style::Plain, "  - "@ + o.components@[i]@),
    ] by {
        assert(lines[4 + i] == ui::item_lines(text::texts(o.components@))[i]);
    }
    assert forall|i: int| #![trigger o.installed_files@[i]] 0 <= i < f implies {
        let l = lines[5 + c + i];
        &&& l == file_line(o.installed_files@[i], verbose)
        &&& digest_is_shown(o.installed_files@[i].sha256@, verbose, l[3].1)
    } by {
        ascii_digests_are_cut(o.installed_files@[i].sha256@, verbose);
        assert(lines[5 + c + i] == file_line(o.installed_files@[i], verbose));
    }
    if o.warnings@.len() > 0 {
        let shown = warning_lines(text::texts(o.warnings@));
        assert(lines[7 + c + f] == shown[0]);
        assert forall|i: int| #![trigger o.warnings@[i]] 0 <= i < o.warnings@.len() implies lines[8
            + c + f + i] == seq![(Style::Plain, "  - "@ + o.warnings@[i]@)] by {
            assert(lines[8 + c + f + i] == shown[1 + i]);
            assert(shown[1 + i] == ui::item_lines(text::texts(o.warnings@))[i]);
        }
    }
}

proof fn lemma_ascii_prefix(s: Seq<char>, n: int)
    requires
        0 <= n,
        forall|i: int| 0 <= i < n && i < s.len() ==> (#[trigger] s[i] as u32) < 0x80,
    ensures
        n <= s.len() ==> byte_prefix(s, n) == Some(s.take(n)),
        n > s.len() ==> byte_prefix(s, n) is None,
    decreases n,
{
    if n == 0 {
        assert(s.take(0) =~= Seq::empty());
    } else if s.len() > 0 {
        assert((s[0] as u32) < 0x80);
        let rest = s.skip(1);
        assert forall|i: int| 0 <= i < n - 1 && i < rest.len() implies (#[trigger] rest[i] as u32)
            < 0x80 by {
            assert(rest[i] == s[i + 1]);
        }
        lemma_ascii_prefix(rest, n - 1);
        if n <= s.len() {
            assert(seq![s[0]] + rest.take(n - 1) =~= s.take(n));
        }
    }
}

/// A digest of ASCII characters is cut behind its eighth, unless more is asked for.
pub proof fn ascii_digests_are_cut(sha: Seq<char>, verbose: bool)
    ensures
        digest_is_shown(sha, verbose, shown_digest(sha, verbose)),
{
    if forall|i: int| 0 <= i < 8 && i < sha.len() ==> (#[trigger] sha[i] as u32) < 0x80 {
        lemma_ascii_prefix(sha, 8);
    }
}

/// The bytes that a character takes are those of its UTF-8 form.
pub proof fn width_is_that_of_utf8(c: char)
    ensures
        utf8_width(c) == vstd::utf8::encode_utf8(seq![c]).len(),
{
    vstd::utf8::char_is_scalar(c);
    reveal_with_fuel(vstd::utf8::encode_utf8, 2);
    assert(seq![c].drop_first() =~= Seq::empty());
}

/// Shows what carrying out a plan came to.
pub fn render_execute_human(outcome: &ExecuteOutcome, verbose: bool) -> (r: Vec<Line>)
    ensures
        ui::views(r@) == outcome_lines(*outcome, verbose),
        outcome_is_shown(*outcome, verbose, ui::views(r@)),
{
    let mut out: Vec<Line> = Vec::new();
    assert(ui::views(out@) =~= Seq::empty());
    push_line(&mut out, headline(outcome));
    let l = Line::new().with(Style::Label, "operation_id:").with(Style::Plain, " ").with(
        Style::Id,
        outcome.operation_id.as_str(),
    );
    assert(l@ =~= seq![
        (Style::Label, "operation_id:"@),
        (Style::Plain, " "@),
        (Style::Id, outcome.operation_id@),
    ]);
    push_line(&mut out, l);
    let mode = cat2(" ", outcome.install_mode.as_str());
    let l = Line::new().with(Style::Label, "install_mode:").with(Style::Plain, mode.as_str());
    assert(l@ =~= seq![
        (Style::Label, "install_mode:"@),
        (Style::Plain, " "@ + outcome.install_mode@),
    ]);
    push_line(&mut out, l);
    push_line(&mut out, one(Style::Header, "components:"));
    push_items(&mut out, &outcome.components);
    let mut head = if outcome.reactivated {
        "verified_files".to_owned()
    } else {
        "installed_files".to_owned()
    };
    let n: usize = outcome.installed_files.len();
    head.append(" (");
    push_decimal(&mut head, n as u64);
    head.append("):");
    push_line(&mut out, one(Style::Header, head.as_str()));
    push_files(&mut out, &outcome.installed_files, verbose);
    let l = Line::new().with(Style::Label, "state:").with(Style::Plain, " ").with(
        Style::Path,
        outcome.state_path.as_str(),
    );
    assert(l@ =~= seq![
        (Style::Label, "state:"@),
        (Style::Plain, " "@),
        (Style::Path, outcome.state_path@),
    ]);
    push_line(&mut out, l);
    let l = Line::new().with(Style::Label, "log:").with(Style::Plain, "   ").with(
        Style::Path,
        outcome.central_log_path.as_str(),
    );
    assert(l@ =~= seq![
        (Style::Label, "log:"@),
        (Style::Plain, "   "@),
        (Style::Path, outcome.central_log_path@),
    ]);
    push_line(&mut out, l);
    push_warnings(&mut out, &outcome.warnings);
    assert(ui::views(out@) =~= outcome_lines(*outcome, verbose));
    proof {
        outcomes_are_shown(*outcome, verbose);
    }
    out
}

// ---- what would be done ---------------------------------------------------------
/// A condition that was looked at.
#[derive(Clone, Debug)]
pub struct Precheck {
    pub name: String,
    pub status: String,
    pub expected: String,
    pub actual: String,
    pub message: Option<String>,
}

/// The machine, as far as a plan depends on it.
#[derive(Clone, Debug)]
pub struct EnvFacts {
    pub os: String,
    pub arch: String,
    pub libc: Option<String>,
    pub pkg_base: Option<String>,
}

/// Where files go.
#[derive(Clone, Debug)]
pub struct LayoutSummary {
    pub bin_dir: String,
    pub etc_dir: String,
    pub state_dir: String,
    pub log_dir: String,
    pub manifests_overlay: String,
}

/// What enabling a capability would do.
#[derive(Clone, Debug)]
pub struct EnablePlan {
    pub capability: String,
    pub stability: String,
    pub install_mode: String,
    pub status: String,
    pub blocked_reason: Option<String>,
    pub env_facts: EnvFacts,
    pub prechecks: Vec<Precheck>,
    pub components: Vec<PlanComponent>,
    pub layout: LayoutSummary,
    pub warnings: Vec<String>,
    pub next_actions: Vec<String>,
}

/// The text of an option, or another.
pub open spec fn text_or(o: Option<String>, other: Seq<char>) -> Seq<char> {
    match o {
        Some(s) => s@,
        None => other,
    }
}

fn or_text<'a>(o: &'a Option<String>, other: &'a str) -> (r: &'a str)
    ensures
        r@ == text_or(*o, other@),
{
    match o {
        Some(s) => s.as_str(),
        None => other,
    }
}

/// The lines that head a plan.
pub open spec fn plan_head(p: EnablePlan) -> Seq<LineView> {
    seq![
        seq![
            (Style::Label, "capability:"@),
            (Style::Plain, " "@ + p.capability@ + " "@),
            (
                Style::Muted,
                "(stability: "@ + p.stability@ + ", install_mode: "@ + p.install_mode@
                    + ", dry_run: true)"@,
            ),
        ],
        seq![(Style::Label, "status:"@), (Style::Plain, " "@), (Style::Status, p.status@)],
    ] + (match p.blocked_reason {
        Some(reason) => seq![seq![(Style::Bad, "blocked:"@), (Style::Plain, " "@ + reason@)]],
        None => Seq::empty(),
    }) + seq![
        seq![(Style::Header, "env:"@)],
        seq![
            (
                Style::Plain,
                "  os="@ + p.env_facts.os@ + " arch="@ + p.env_facts.arch@ + " libc="@ + text_or(
                    p.env_facts.libc,
                    "-"@,
                ) + " pkg_base="@ + text_or(p.env_facts.pkg_base, "-"@),
            ),
        ],
    ]
}

fn push_head(out: &mut Vec<Line>, p: &EnablePlan)
    ensures
        ui::views(final(out)@) == ui::views(old(out)@) + plan_head(*p),
{
    let ghost before = ui::views(out@);
    let name = cat3(" ", p.capability.as_str(), " ");
    let mut about = cat3("(stability: ", p.stability.as_str(), ", install_mode: ");
    about.append(p.install_mode.as_str());
    about.append(", dry_run: true)");
    let l = Line::new().with(Style::Label, "capability:").with(Style::Plain, name.as_str()).with(
        Style::Muted,
        about.as_str(),
    );
    assert(l@ =~= plan_head(*p)[0]);
    push_line(out, l);
    let l = Line::new().with(Style::Label, "status:").with(Style::Plain, " ").with(
        Style::Status,
        p.status.as_str(),
    );
    assert(l@ =~= plan_head(*p)[1]);
    push_line(out, l);
    match &p.blocked_reason {
        Some(reason) => {
            let why = cat2(" ", reason.as_str());
            let l = Line::new().with(Style::Bad, "blocked:").with(Style::Plain, why.as_str());
            assert(l@ =~= plan_head(*p)[2]);
            push_line(out, l);
        },
        None => {},
    }
    push_line(out, one(Style::Header, "env:"));
    let mut env = cat3("  os=", p.env_facts.os.as_str(), " arch=");
    env.append(p.env_facts.arch.as_str());
    env.append(" libc=");
    env.append(or_text(&p.env_facts.libc, "-"));
    env.append(" pkg_base=");
    env.append(or_text(&p.env_facts.pkg_base, "-"));
    push_line(out, one(Style::Plain, env.as_str()));
    assert(ui::views(out@) =~= before + plan_head(*p));
}

/// The line of a condition.
pub open spec fn precheck_line(p: Precheck) -> LineView {
    seq![
        (Style::Plain, "  - "@ + text::padded(p.name@, 14) + " "@),
        (Style::Status, text::padded(p.status@, 5)),
        (
            Style::Plain,
            " expected="@ + p.expected@ + " actual="@ + p.actual@ + " "@ + text_or(
                p.message,
                ""@,
            ),
        ),
    ]
}

/// The conditions, under their headline; nothing where there are none.
pub open spec fn precheck_lines(ps: Seq<Precheck>) -> Seq<LineView> {
    if ps.len() == 0 {
        Seq::empty()
    } else {
        seq![seq![(Style::Header, "prechecks:"@)]] + ps.map_values(|p: Precheck| precheck_line(p))
    }
}

fn push_prechecks(out: &mut Vec<Line>, ps: &Vec<Precheck>)
    ensures
        ui::views(final(out)@) == ui::views(old(out)@) + precheck_lines(ps@),
{
    let ghost before = ui::views(out@);
    if ps.len() == 0 {
        assert(before + precheck_lines(ps@) =~= before);
        return;
    }
    push_line(out, one(Style::Header, "prechecks:"));
    let ghost head = before.push(seq![(Style::Header, "prechecks:"@)]);
    let ghost line = |p: Precheck| precheck_line(p);
    let mut i: usize = 0;
    assert(head + ps@.take(0).map_values(line) =~= head);
    while i < ps.len()
        invariant
            i <= ps@.len(),
            line == (|p: Precheck| precheck_line(p)),
            ui::views(out@) == head + ps@.take(i as int).map_values(line),
        decreases ps@.len() - i,
    {
        let p = &ps[i];
        let padded = pad_right(p.name.as_str(), 14);
        let name = cat3("  - ", padded.as_str(), " ");
        let status = pad_right(p.status.as_str(), 5);
        let mut rest = cat3(" expected=", p.expected.as_str(), " actual=");
        rest.append(p.actual.as_str());
        rest.append(" ");
        rest.append(or_text(&p.message, ""));
        let l = Line::new().with(Style::Plain, name.as_str()).with(
            Style::Status,
            status.as_str(),
        ).with(Style::Plain, rest.as_str());
        proof {
            assert(l@ =~= precheck_line(ps@[i as int]));
            assert(ps@.take(i + 1).map_values(line) =~= ps@.take(i as int).map_values(line).push(
                l@,
            ));
        }
        push_line(out, l);
        i = i + 1;
        assert(ui::views(out@) =~= head + ps@.take(i as int).map_values(line));
    }
    assert(ps@.take(i as int) =~= ps@);
    assert(ui::views(out@) =~= before + precheck_lines(ps@));
}

/// A labelled line of a component, indented.
pub open spec fn detail_line(label: Seq<char>, rest: LineView) -> LineView {
    seq![(Style::Plain, "      "@), (Style::Label, label)] + rest
}

/// A labelled list of a component; nothing where it is empty.
pub open spec fn detail_list(label: Seq<char>, items: Seq<Seq<char>>) -> Seq<LineView> {
    if items.len() == 0 {
        Seq::empty()
    } else {
        seq![detail_line(label, seq![(Style::Plain, " "@ + text::joined(items, ", "@))])]
    }
}

/// The lines of an artifact.
pub open spec fn artifact_lines(a: PlanArtifact, verbose: bool) -> Seq<LineView> {
    seq![
        seq![
            (
                Style::Plain,
                "      artifact: "@ + a.artifact_type@ + " ("@ + a.backend@ + ") v"@ + a.version@
                    + " url="@,
            ),
            (Style::Path, a.url@),
        ],
    ] + (match a.sha256 {
        Some(sha) => if verbose {
            seq![detail_line("sha256:"@, seq![(Style::Plain, " "@), (Style::Id, sha@)])]
        } else {
            Seq::empty()
        },
        None => Seq::empty(),
    })
}

/// The lines of a component that are always shown.
pub open spec fn component_brief(c: PlanComponent, verbose: bool) -> Seq<LineView> {
    seq![
        seq![
            (
                Style::Plain,
                "  - "@ + c.name@ + " v"@ + text_or(c.manifest_version, "-"@) + " status="@,
            ),
            (Style::Status, c.status@),
        ],
    ] + (match c.blocked_reason {
        Some(reason) => seq![
            seq![
                (Style::Plain, "      "@),
                (Style::Bad, "blocked:"@),
                (Style::Plain, " "@ + reason@),
            ],
        ],
        None => Seq::empty(),
    }) + (match c.artifact {
        Some(a) => artifact_lines(a, verbose),
        None => Seq::empty(),
    })
}

/// The lines of a component that are shown where more is asked for.
pub open spec fn component_details(c: PlanComponent) -> Seq<LineView> {
    detail_list("services:"@, text::texts(c.services@)) + detail_list(
        "files:"@,
        text::texts(c.files@),
    ) + detail_list("resolved_files:"@, text::texts(c.resolved_files@)) + detail_list(
        "capabilities:"@,
        text::texts(c.capabilities@),
    ) + seq![
        detail_line(
            "requires_privilege:"@,
            seq![
                (Style::Plain, " "@),
                (
                    Style::Flag,
                    if c.requires_privilege {
                        "true"@
                    } else {
                        "false"@
                    },
                ),
            ],
        ),
    ]
}

/// The lines of a component.
pub open spec fn component_lines(c: PlanComponent, verbose: bool) -> Seq<LineView> {
    if verbose {
        component_brief(c, verbose) + component_details(c)
    } else {
        component_brief(c, verbose)
    }
}

/// The lines of the first `n` components.
pub open spec fn all_component_lines(cs: Seq<PlanComponent>, verbose: bool, n: int) -> Seq<LineView>
    decreases n,
{
    if n <= 0 {
        Seq::empty()
    } else {
        all_component_lines(cs, verbose, n - 1) + component_lines(cs[n - 1], verbose)
    }
}

fn detail(label: &str) -> (r: Line)
    ensures
        r@ == detail_line(label@, Seq::empty()),
{
    let r = Line::new().with(Style::Plain, "      ").with(Style::Label, label);
    assert(r@ =~= detail_line(label@, Seq::empty()));
    r
}

fn push_detail_list(out: &mut Vec<Line>, label: &str, items: &Vec<String>)
    ensures
        ui::views(final(out)@) == ui::views(old(out)@) + detail_list(label@, text::texts(items@)),
{
    let ghost before = ui::views(out@);
    if items.len() > 0 {
        let list = join(items, ", ");
        let rest = cat2(" ", list.as_str());
        let l = detail(label).with(Style::Plain, rest.as_str());
        assert(l@ =~= detail_line(
            label@,
            seq![(Style::Plain, " "@ + text::joined(text::texts(items@), ", "@))],
        ));
        push_line(out, l);
    }
    assert(ui::views(out@) =~= before + detail_list(label@, text::texts(items@)));
}

fn push_artifact(out: &mut Vec<Line>, a: &PlanArtifact, verbose: bool)
    ensures
        ui::views(final(out)@) == ui::views(old(out)@) + artifact_lines(*a, verbose),
{
    let ghost before = ui::views(out@);
    let mut what = cat3("      artifact: ", a.artifact_type.as_str(), " (");
    what.append(a.backend.as_str());
    what.append(") v");
    what.append(a.version.as_str());
    what.append(" url=");
    let l = Line::new().with(Style::Plain, what.as_str()).with(Style::Path, a.url.as_str());
    assert(l@ =~= artifact_lines(*a, verbose)[0]);
    push_line(out, l);
    match &a.sha256 {
        Some(sha) => {
            if verbose {
                let l = detail("sha256:").with(Style::Plain, " ").with(Style::Id, sha.as_str());
                assert(l@ =~= detail_line(
                    "sha256:"@,
                    seq![(Style::Plain, " "@), (Style::Id, sha@)],
                ));
                push_line(out, l);
            }
        },
        None => {},
    }
    assert(ui::views(out@) =~= before + artifact_lines(*a, verbose));
}

fn push_brief(out: &mut Vec<Line>, c: &PlanComponent, verbose: bool)
    ensures
        ui::views(final(out)@) == ui::views(old(out)@) + component_brief(*c, verbose),
{
    let ghost before = ui::views(out@);
    let mut what = cat3("  - ", c.name.as_str(), " v");
    what.append(or_text(&c.manifest_version, "-"));
    what.append(" status=");
    let l = Line::new().with(Style::Plain, what.as_str()).with(Style::Status, c.status.as_str());
    assert(l@ =~= component_brief(*c, verbose)[0]);
    push_line(out, l);
    match &c.blocked_reason {
        Some(reason) => {
            let why = cat2(" ", reason.as_str());
            let l = Line::new().with(Style::Plain, "      ").with(Style::Bad, "blocked:").with(
                Style::Plain,
                why.as_str(),
            );
            assert(l@ =~= component_brief(*c, verbose)[1]);
            push_line(out, l);
        },
        None => {},
    }
    match &c.artifact {
        Some(a) => push_artifact(out, a, verbose),
        None => {},
    }
    assert(ui::views(out@) =~= before + component_brief(*c, verbose));
}

fn push_details(out: &mut Vec<Line>, c: &PlanComponent)
    ensures
        ui::views(final(out)@) == ui::views(old(out)@) + component_details(*c),
{
    let ghost before = ui::views(out@);
    push_detail_list(out, "services:", &c.services);
    push_detail_list(out, "files:", &c.files);
    push_detail_list(out, "resolved_files:", &c.resolved_files);
    push_detail_list(out, "capabilities:", &c.capabilities);
    let flag = if c.requires_privilege {
        "true"
    } else {
        "false"
    };
    let l = detail("requires_privilege:").with(Style::Plain, " ").with(Style::Flag, flag);
    assert(l@ =~= detail_line(
        "requires_privilege:"@,
        seq![(Style::Plain, " "@), (Style::Flag, flag@)],
    ));
    push_line(out, l);
    assert(ui::views(out@) =~= before + component_details(*c));
}

fn push_components(out: &mut Vec<Line>, cs: &Vec<PlanComponent>, verbose: bool)
    ensures
        ui::views(final(out)@) == ui::views(old(out)@) + all_component_lines(
            cs@,
            verbose,
            cs@.len() as int,
        ),
{
    let ghost before = ui::views(out@);
    let mut i: usize = 0;
    assert(before + all_component_lines(cs@, verbose, 0) =~= before);
    while i < cs.len()
        invariant
            i <= cs@.len(),
            ui::views(out@) == before + all_component_lines(cs@, verbose, i as int),
        decreases cs@.len() - i,
    {
        push_brief(out, &cs[i], verbose);
        if verbose {
            push_details(out, &cs[i]);
        }
        i = i + 1;
        proof {
            assert(ui::views(out@) =~= before + all_component_lines(cs@, verbose, i as int));
        }
    }
}

/// The lines of the layout.
pub open spec fn layout_lines(l: LayoutSummary) -> Seq<LineView> {
    seq![
        seq![(Style::Header, "layout:"@)],
        seq![(Style::Plain, "  bin_dir:           "@), (Style::Path, l.bin_dir@)],
        seq![(Style::Plain, "  etc_dir:           "@), (Style::Path, l.etc_dir@)],
        seq![(Style::Plain, "  state_dir:         "@), (Style::Path, l.state_dir@)],
        seq![(Style::Plain, "  log_dir:           "@), (Style::Path, l.log_dir@)],
        seq![(Style::Plain, "  manifests_overlay: "@), (Style::Path, l.manifests_overlay@)],
    ]
}

fn directory(label: &str, path: &str) -> (r: Line)
    ensures
        r@ == seq![(Style::Plain, label@), (Style::Path, path@)],
{
    let r = Line::new().with(Style::Plain, label).with(Style::Path, path);
    assert(r@ =~= seq![(Style::Plain, label@), (Style::Path, path@)]);
    r
}

fn push_layout(out: &mut Vec<Line>, l: &LayoutSummary)
    ensures
        ui::views(final(out)@) == ui::views(old(out)@) + layout_lines(*l),
{
    let ghost before = ui::views(out@);
    push_line(out, one(Style::Header, "layout:"));
    push_line(out, directory("  bin_dir:           ", l.bin_dir.as_str()));
    push_line(out, directory("  etc_dir:           ", l.etc_dir.as_str()));
    push_line(out, directory("  state_dir:         ", l.state_dir.as_str()));
    push_line(out, directory("  log_dir:           ", l.log_dir.as_str()));
    push_line(out, directory("  manifests_overlay: ", l.manifests_overlay.as_str()));
    assert(ui::views(out@) =~= before + layout_lines(*l));
}

/// What to do next, under its headline; nothing where there is nothing.
pub open spec fn next_lines(actions: Seq<Seq<char>>) -> Seq<LineView> {
    if actions.len() == 0 {
        Seq::empty()
    } else {
        seq![seq![(Style::Header, "next:"@)]] + ui::item_lines(actions)
    }
}

fn push_next(out: &mut Vec<Line>, actions: &Vec<String>)
    ensures
        ui::views(final(out)@) == ui::views(old(out)@) + next_lines(text::texts(actions@)),
{
    let ghost before = ui::views(out@);
    if actions.len() > 0 {
        push_line(out, one(Style::Header, "next:"));
        push_items(out, actions);
    }
    assert(ui::views(out@) =~= before + next_lines(text::texts(actions@)));
}

/// The lines that show a plan.
pub open spec fn plan_lines(p: EnablePlan, verbose: bool) -> Seq<LineView> {
    plan_head(p) + precheck_lines(p.prechecks@) + seq![seq![(Style::Header, "components:"@)]]
        + all_component_lines(p.components@, verbose, p.components@.len() as int) + layout_lines(
        p.layout,
    ) + warning_lines(text::texts(p.warnings@)) + next_lines(text::texts(p.next_actions@))
}

/// 1 for what is there, 0 for what is not.
pub open spec fn one_if(there: bool) -> int {
    if there {
        1
    } else {
        0
    }
}

/// How many lines a component takes: one of its own, one for what blocks it and
/// one for its artifact; where more is asked for, one for the digest of the
/// artifact, one for each list that is not empty, and one for the privilege.
#[verifier::opaque]
pub open spec fn component_height(c: PlanComponent, verbose: bool) -> int {
    1 + one_if(c.blocked_reason is Some) + one_if(c.artifact is Some) + (if verbose {
        one_if(c.artifact is Some && c.artifact->Some_0.sha256 is Some) + one_if(
            c.services@.len() > 0,
        ) + one_if(c.files@.len() > 0) + one_if(c.resolved_files@.len() > 0) + one_if(
            c.capabilities@.len() > 0,
        ) + 1
    } else {
        0
    })
}

/// How many lines the first `n` components take.
pub open spec fn heights(cs: Seq<PlanComponent>, verbose: bool, n: int) -> int
    decreases n,
{
    if n <= 0 {
        0
    } else {
        heights(cs, verbose, n - 1) + component_height(cs[n - 1], verbose)
    }
}

/// Lines from `at` on show a component: each thing under its label.
#[verifier::opaque]
pub open spec fn component_is_shown(
    c: PlanComponent,
    verbose: bool,
    lines: Seq<LineView>,
    at: int,
) -> bool {
    let blocked = at + 1;
    let artifact = blocked + one_if(c.blocked_reason is Some);
    let digest = artifact + one_if(c.artifact is Some);
    let services = digest + one_if(c.artifact is Some && c.artifact->Some_0.sha256 is Some);
    let files = services + one_if(c.services@.len() > 0);
    let resolved = files + one_if(c.files@.len() > 0);
    let capabilities = resolved + one_if(c.resolved_files@.len() > 0);
    let privilege = capabilities + one_if(c.capabilities@.len() > 0);
    &&& lines[at] == seq![
        (
            Style::Plain,
            "  - "@ + c.name@ + " v"@ + (if c.manifest_version is Some {
                c.manifest_version->Some_0@
            } else {
                "-"@
            }) + " status="@,
        ),
        (Style::Status, c.status@),
    ]
    &&& c.blocked_reason is Some ==> lines[blocked] == seq![
        (Style::Plain, "      "@),
        (Style::Bad, "blocked:"@),
        (Style::Plain, " "@ + c.blocked_reason->Some_0@),
    ]
    &&& c.artifact matches Some(a) ==> lines[artifact] == seq![
        (
            Style::Plain,
            "      artifact: "@ + a.artifact_type@ + " ("@ + a.backend@ + ") v"@ + a.version@
                + " url="@,
        ),
        (Style::Path, a.url@),
    ]
    &&& verbose && c.artifact is Some && c.artifact->Some_0.sha256 is Some ==> lines[digest]
        == seq![
        (Style::Plain, "      "@),
        (Style::Label, "sha256:"@),
        (Style::Plain, " "@),
        (Style::Id, c.artifact->Some_0.sha256->Some_0@),
    ]
    &&& verbose && c.services@.len() > 0 ==> lines[services] == seq![
        (Style::Plain, "      "@),
        (Style::Label, "services:"@),
        (Style::Plain, " "@ + text::joined(text::texts(c.services@), ", "@)),
    ]
    &&& verbose && c.files@.len() > 0 ==> lines[files] == seq![
        (Style::Plain, "      "@),
        (Style::Label, "files:"@),
        (Style::Plain, " "@ + text::joined(text::texts(c.files@), ", "@)),
    ]
    &&& verbose && c.resolved_files@.len() > 0 ==> lines[resolved] == seq![
        (Style::Plain, "      "@),
        (Style::Label, "resolved_files:"@),
        (Style::Plain, " "@ + text::joined(text::texts(c.resolved_files@), ", "@)),
    ]
    &&& verbose && c.capabilities@.len() > 0 ==> lines[capabilities] == seq![
        (Style::Plain, "      "@),
        (Style::Label, "capabilities:"@),
        (Style::Plain, " "@ + text::joined(text::texts(c.capabilities@), ", "@)),
    ]
    &&& verbose ==> lines[privilege] == seq![
        (Style::Plain, "      "@),
        (Style::Label, "requires_privilege:"@),
        (Style::Plain, " "@),
        (
            Style::Flag,
            if c.requires_privilege {
                "true"@
            } else {
                "false"@
            },
        ),
    ]
}

/// Lines show a plan: each thing under its label, part by part.
pub open spec fn plan_is_shown(p: EnablePlan, verbose: bool, lines: Seq<LineView>) -> bool {
    let b = one_if(p.blocked_reason is Some);
    let n = p.prechecks@.len() as int;
    let w = p.warnings@.len() as int;
    let a = p.next_actions@.len() as int;
    let components = 4 + b + n + one_if(n > 0);
    let layout = components + 1 + heights(p.components@, verbose, p.components@.len() as int);
    let warnings = layout + 6;
    let next = warnings + w + one_if(w > 0);
    &&& lines.len() == next + a + one_if(a > 0)
    &&& lines[0] == seq![
        (Style::Label, "capability:"@),
        (Style::Plain, " "@ + p.capability@ + " "@),
        (
            Style::Muted,
            "(stability: "@ + p.stability@ + ", install_mode: "@ + p.install_mode@
                + ", dry_run: true)"@,
        ),
    ]
    &&& lines[1] == seq![(Style::Label, "status:"@), (Style::Plain, " "@), (Style::Status,
        p.status@)]
    &&& p.blocked_reason is Some ==> lines[2] == seq![
        (Style::Bad, "blocked:"@),
        (Style::Plain, " "@ + p.blocked_reason->Some_0@),
    ]
    &&& lines[2 + b] == seq![(Style::Header, "env:"@)]
    &&& lines[3 + b] == seq![
        (
            Style::Plain,
            "  os="@ + p.env_facts.os@ + " arch="@ + p.env_facts.arch@ + " libc="@ + (
            if p.env_facts.libc is Some {
                p.env_facts.libc->Some_0@
            } else {
                "-"@
            }) + " pkg_base="@ + (if p.env_facts.pkg_base is Some {
                p.env_facts.pkg_base->Some_0@
            } else {
                "-"@
            }),
        ),
    ]
    &&& n > 0 ==> lines[4 + b] == seq![(Style::Header, "prechecks:"@)]
    &&& forall|i: int|
        #![trigger p.prechecks@[i]]
        0 <= i < n ==> lines[5 + b + i] == seq![
            (Style::Plain, "  - "@ + text::padded(p.prechecks@[i].name@, 14) + " "@),
            (Style::Status, text::padded(p.prechecks@[i].status@, 5)),
            (
                Style::Plain,
                " expected="@ + p.prechecks@[i].expected@ + " actual="@ + p.prechecks@[i].actual@
                    + " "@ + (if p.prechecks@[i].message is Some {
                    p.prechecks@[i].message->Some_0@
                } else {
                    ""@
                }),
            ),
        ]
    &&& lines[components] == seq![(Style::Header, "components:"@)]
    &&& forall|i: int|
        #![trigger p.components@[i]]
        0 <= i < p.components@.len() ==> component_is_shown(
            p.components@[i],
            verbose,
            lines,
            components + 1 + heights(p.components@, verbose, i),
        )
    &&& lines[layout] == seq![(Style::Header, "layout:"@)]
    &&& lines[layout + 1] == seq![
        (Style::Plain, "  bin_dir:           "@),
        (Style::Path, p.layout.bin_dir@),
    ]
    &&& lines[layout + 2] == seq![
        (Style::Plain, "  etc_dir:           "@),
        (Style::Path, p.layout.etc_dir@),
    ]
    &&& lines[layout + 3] == seq![
        (Style::Plain, "  state_dir:         "@),
        (Style::Path, p.layout.state_dir@),
    ]
    &&& lines[layout + 4] == seq![
        (Style::Plain, "  log_dir:           "@),
        (Style::Path, p.layout.log_dir@),
    ]
    &&& lines[layout + 5] == seq![
        (Style::Plain, "  manifests_overlay: "@),
        (Style::Path, p.layout.manifests_overlay@),
    ]
    &&& w > 0 ==> lines[warnings] == seq![(Style::Warn, "warnings:"@)]
    &&& forall|i: int|
        #![trigger p.warnings@[i]]
        0 <= i < w ==> lines[warnings + 1 + i] == seq![(Style::Plain, "  - "@ + p.warnings@[i]@)]
    &&& a > 0 ==> lines[next] == seq![(Style::Header, "next:"@)]
    &&& forall|i: int|
        #![trigger p.next_actions@[i]]
        0 <= i < a ==> lines[next + 1 + i] == seq![(Style::Plain, "  - "@ + p.next_actions@[i]@)]
}

#[verifier::rlimit(60)]
#[verifier::spinoff_prover]
proof fn lemma_component_shown(c: PlanComponent, verbose: bool)
    ensures
        component_lines(c, verbose).len() == component_height(c, verbose),
        component_is_shown(c, verbose, component_lines(c, verbose), 0),
{
    reveal(component_height);
    reveal(component_is_shown);
    let lines = component_lines(c, verbose);
    let brief = component_brief(c, verbose);
    assert forall|k: int| 0 <= k < brief.len() implies lines[k] == #[trigger] brief[k] by {}
    assert(brief[0] == lines[0]);
    let artifact = 1 + one_if(c.blocked_reason is Some);
    if c.blocked_reason is Some {
        assert(brief[1] == lines[1]);
    }
    if c.artifact is Some {
        let shown = artifact_lines(c.artifact->Some_0, verbose);
        assert(brief[artifact] == shown[0]);
        if verbose && c.artifact->Some_0.sha256 is Some {
            assert(brief[artifact + 1] == shown[1]);
            assert(shown[1] =~= seq![
                (Style::Plain, "      "@),
                (Style::Label, "sha256:"@),
                (Style::Plain, " "@),
                (Style::Id, c.artifact->Some_0.sha256->Some_0@),
            ]);
        }
    }
    if verbose {
        lemma_details_shown(c);
        let details = component_details(c);
        assert forall|k: int| 0 <= k < details.len() implies lines[brief.len() + k]
            == #[trigger] details[k] by {}
        assert(brief.len() == artifact + one_if(c.artifact is Some) + one_if(
            c.artifact is Some && c.artifact->Some_0.sha256 is Some,
        ));
    }
}

proof fn lemma_detail_list(label: Seq<char>, items: Seq<Seq<char>>)
    ensures
        detail_list(label, items).len() == one_if(items.len() > 0),
        items.len() > 0 ==> detail_list(label, items)[0] == seq![
            (Style::Plain, "      "@),
            (Style::Label, label),
            (Style::Plain, " "@ + text::joined(items, ", "@)),
        ],
{
    if items.len() > 0 {
        assert(detail_list(label, items)[0] =~= seq![
            (Style::Plain, "      "@),
            (Style::Label, label),
            (Style::Plain, " "@ + text::joined(items, ", "@)),
        ]);
    }
}

proof fn lemma_details_shown(c: PlanComponent)
    ensures
        ({
            let files = one_if(c.services@.len() > 0);
            let resolved = files + one_if(c.files@.len() > 0);
            let capabilities = resolved + one_if(c.resolved_files@.len() > 0);
            let privilege = capabilities + one_if(c.capabilities@.len() > 0);
            let lines = component_details(c);
            &&& lines.len() == privilege + 1
            &&& c.services@.len() > 0 ==> lines[0] == seq![
                (Style::Plain, "      "@),
                (Style::Label, "services:"@),
                (Style::Plain, " "@ + text::joined(text::texts(c.services@), ", "@)),
            ]
            &&& c.files@.len() > 0 ==> lines[files] == seq![
                (Style::Plain, "      "@),
                (Style::Label, "files:"@),
                (Style::Plain, " "@ + text::joined(text::texts(c.files@), ", "@)),
            ]
            &&& c.resolved_files@.len() > 0 ==> lines[resolved] == seq![
                (Style::Plain, "      "@),
                (Style::Label, "resolved_files:"@),
                (Style::Plain, " "@ + text::joined(text::texts(c.resolved_files@), ", "@)),
            ]
            &&& c.capabilities@.len() > 0 ==> lines[capabilities] == seq![
                (Style::Plain, "      "@),
                (Style::Label, "capabilities:"@),
                (Style::Plain, " "@ + text::joined(text::texts(c.capabilities@), ", "@)),
            ]
            &&& lines[privilege] == seq![
                (Style::Plain, "      "@),
                (Style::Label, "requires_privilege:"@),
                (Style::Plain, " "@),
                (
                    Style::Flag,
                    if c.requires_privilege {
                        "true"@
                    } else {
                        "false"@
                    },
                ),
            ]
        }),
{
    let lines = component_details(c);
    lemma_detail_list("services:"@, text::texts(c.services@));
    lemma_detail_list("files:"@, text::texts(c.files@));
    lemma_detail_list("resolved_files:"@, text::texts(c.resolved_files@));
    lemma_detail_list("capabilities:"@, text::texts(c.capabilities@));
    let a = detail_list("services:"@, text::texts(c.services@));
    let b = detail_list("files:"@, text::texts(c.files@));
    let d = detail_list("resolved_files:"@, text::texts(c.resolved_files@));
    let e = detail_list("capabilities:"@, text::texts(c.capabilities@));
    let n = (a.len() + b.len() + d.len() + e.len()) as int;
    assert(lines.len() == n + 1);
    assert(a.len() > 0 ==> lines[0] == a[0]);
    assert(b.len() > 0 ==> lines[a.len() as int] == b[0]);
    assert(d.len() > 0 ==> lines[(a.len() + b.len()) as int] == d[0]);
    assert(e.len() > 0 ==> lines[(a.len() + b.len() + d.len()) as int] == e[0]);
    assert(lines[n] =~= seq![
        (Style::Plain, "      "@),
        (Style::Label, "requires_privilege:"@),
        (Style::Plain, " "@),
        (
            Style::Flag,
            if c.requires_privilege {
                "true"@
            } else {
                "false"@
            },
        ),
    ]);
}

#[verifier::spinoff_prover]
proof fn lemma_component_heights(cs: Seq<PlanComponent>, verbose: bool, n: int)
    requires
        0 <= n <= cs.len(),
    ensures
        all_component_lines(cs, verbose, n).len() == heights(cs, verbose, n),
    decreases n,
{
    if n > 0 {
        lemma_component_heights(cs, verbose, n - 1);
        lemma_component_shown(cs[n - 1], verbose);
    }
}

#[verifier::rlimit(40)]
#[verifier::spinoff_prover]
proof fn lemma_component_at(cs: Seq<PlanComponent>, verbose: bool, n: int, i: int)
    requires
        0 <= i < n <= cs.len(),
    ensures
        ({
            let from = heights(cs, verbose, i);
            let to = from + component_height(cs[i], verbose);
            &&& 0 <= from <= to <= heights(cs, verbose, n)
            &&& all_component_lines(cs, verbose, n).subrange(from, to) == component_lines(
                cs[i],
                verbose,
            )
        }),
    decreases n,
{
    let from = heights(cs, verbose, i);
    let to = from + component_height(cs[i], verbose);
    let before = all_component_lines(cs, verbose, n - 1);
    let all = all_component_lines(cs, verbose, n);
    lemma_component_heights(cs, verbose, n - 1);
    lemma_component_shown(cs[n - 1], verbose);
    if i < n - 1 {
        lemma_component_at(cs, verbose, n - 1, i);
        assert(all.subrange(from, to) =~= before.subrange(from, to));
    } else {
        assert(all.subrange(from, to) =~= component_lines(cs[i], verbose));
    }
}

proof fn lemma_component_moved(
    c: PlanComponent,
    verbose: bool,
    own: Seq<LineView>,
    lines: Seq<LineView>,
    at: int,
)
    requires
        own.len() == component_height(c, verbose),
        component_is_shown(c, verbose, own, 0),
        0 <= at,
        at + own.len() <= lines.len(),
        lines.subrange(at, at + own.len()) == own,
    ensures
        component_is_shown(c, verbose, lines, at),
{
    reveal(component_height);
    reveal(component_is_shown);
    assert forall|k: int| 0 <= k < own.len() implies #[trigger] own[k] == lines[at + k] by {
        assert(lines.subrange(at, at + own.len())[k] == lines[at + k]);
    }
}

/// Every plan is shown so.
#[verifier::rlimit(60)]
#[verifier::spinoff_prover]
pub proof fn plans_are_shown(p: EnablePlan, verbose: bool)
    ensures
        plan_is_shown(p, verbose, plan_lines(p, verbose)),
{
    let lines = plan_lines(p, verbose);
    let cs = p.components@;
    let head = plan_head(p);
    let checks = precheck_lines(p.prechecks@);
    let title: Seq<LineView> = seq![seq![(Style::Header, "components:"@)]];
    let listed = all_component_lines(cs, verbose, cs.len() as int);
    let dirs = layout_lines(p.layout);
    let told = warning_lines(text::texts(p.warnings@));
    let following = next_lines(text::texts(p.next_actions@));
    lemma_component_heights(cs, verbose, cs.len() as int);
    lemma_parts(head, checks, title, listed, dirs, told, following);
    lemma_prechecks_shown(p.prechecks@);
    lemma_items_shown(p.warnings@);
    lemma_items_shown(p.next_actions@);
    let b = one_if(p.blocked_reason is Some);
    let components = (head.len() + checks.len()) as int;
    assert(head.len() == 4 + b);
    assert(lines[0] == head[0] && lines[1] == head[1] && lines[2] == head[2]);
    assert(lines[2 + b] == head[2 + b] && lines[3 + b] == head[3 + b]);
    assert forall|i: int| #![trigger cs[i]] 0 <= i < cs.len() implies component_is_shown(
        cs[i],
        verbose,
        lines,
        components + 1 + heights(cs, verbose, i),
    ) by {
        let own = component_lines(cs[i], verbose);
        let from = heights(cs, verbose, i);
        lemma_component_shown(cs[i], verbose);
        lemma_component_at(cs, verbose, cs.len() as int, i);
        assert(lines.subrange(components + 1 + from, components + 1 + from + own.len())
            =~= listed.subrange(from, from + own.len()));
        lemma_component_moved(cs[i], verbose, own, lines, components + 1 + from);
    }
    let layout = components + 1 + listed.len();
    assert(lines[layout] == dirs[0] && lines[layout + 1] == dirs[1] && lines[layout + 2] == dirs[2]
        && lines[layout + 3] == dirs[3] && lines[layout + 4] == dirs[4] && lines[layout + 5]
        == dirs[5]);
    let warnings = layout + 6;
    if p.warnings@.len() > 0 {
        assert(lines[warnings] == told[0]);
        assert forall|i: int| #![trigger p.warnings@[i]] 0 <= i < p.warnings@.len() implies lines[
        warnings + 1 + i] == seq![(Style::Plain, "  - "@ + p.warnings@[i]@)] by {
            assert(lines[warnings + (1 + i)] == told[1 + i]);
        }
    }
    let next = warnings + told.len();
    if p.next_actions@.len() > 0 {
        assert(lines[next] == following[0]);
        assert forall|i: int|
            #![trigger p.next_actions@[i]]
            0 <= i < p.next_actions@.len() implies lines[next + 1 + i] == seq![
            (Style::Plain, "  - "@ + p.next_actions@[i]@),
        ] by {
            assert(lines[next + (1 + i)] == following[1 + i]);
        }
    }
    if p.prechecks@.len() > 0 {
        assert(lines[4 + b] == checks[0]);
        assert forall|i: int| #![trigger p.prechecks@[i]] 0 <= i < p.prechecks@.len() implies lines[5
            + b + i] == precheck_line(p.prechecks@[i]) by {
            assert(lines[4 + b + (1 + i)] == checks[1 + i]);
        }
    }
}

proof fn lemma_parts(
    a: Seq<LineView>,
    b: Seq<LineView>,
    c: Seq<LineView>,
    d: Seq<LineView>,
    e: Seq<LineView>,
    f: Seq<LineView>,
    g: Seq<LineView>,
)
    requires
        c.len() == 1,
    ensures
        ({
            let all = a + b + c + d + e + f + g;
            let p = (a.len() + b.len()) as int;
            let q = p + 1 + d.len();
            let r = q + e.len();
            let s = r + f.len();
            &&& all.len() == s + g.len()
            &&& forall|k: int| #![trigger a[k]] 0 <= k < a.len() ==> all[k] == a[k]
            &&& forall|k: int| #![trigger b[k]] 0 <= k < b.len() ==> all[a.len() + k] == b[k]
            &&& all[p] == c[0]
            &&& forall|k: int| #![trigger d[k]] 0 <= k < d.len() ==> all[p + 1 + k] == d[k]
            &&& forall|k: int| #![trigger e[k]] 0 <= k < e.len() ==> all[q + k] == e[k]
            &&& forall|k: int| #![trigger f[k]] 0 <= k < f.len() ==> all[r + k] == f[k]
            &&& forall|k: int| #![trigger g[k]] 0 <= k < g.len() ==> all[s + k] == g[k]
        }),
{
}

proof fn lemma_prechecks_shown(ps: Seq<Precheck>)
    ensures
        precheck_lines(ps).len() == ps.len() + one_if(ps.len() > 0),
        forall|i: int|
            #![trigger ps[i]]
            0 <= i < ps.len() ==> precheck_lines(ps)[1 + i] == precheck_line(ps[i]),
{
}

proof fn lemma_items_shown(items: Seq<String>)
    ensures
        warning_lines(text::texts(items)).len() == items.len() + one_if(items.len() > 0),
        next_lines(text::texts(items)).len() == items.len() + one_if(items.len() > 0),
        forall|i: int|
            #![trigger items[i]]
            0 <= i < items.len() ==> {
                &&& warning_lines(text::texts(items))[1 + i] == seq![
                    (Style::Plain, "  - "@ + items[i]@),
                ]
                &&& next_lines(text::texts(items))[1 + i] == seq![
                    (Style::Plain, "  - "@ + items[i]@),
                ]
            },
{
    assert forall|i: int| #![trigger items[i]] 0 <= i < items.len() implies {
        &&& warning_lines(text::texts(items))[1 + i] == seq![(Style::Plain, "  - "@ + items[i]@)]
        &&& next_lines(text::texts(items))[1 + i] == seq![(Style::Plain, "  - "@ + items[i]@)]
    } by {
        assert(ui::item_lines(text::texts(items))[i] == seq![(Style::Plain, "  - "@ + items[i]@)]);
    }
}

/// Shows a plan.
pub fn render_human(plan: &EnablePlan, verbose: bool) -> (r: Vec<Line>)
    ensures
        ui::views(r@) == plan_lines(*plan, verbose),
        plan_is_shown(*plan, verbose, ui::views(r@)),
{
    let mut out: Vec<Line> = Vec::new();
    assert(ui::views(out@) =~= Seq::empty());
    push_head(&mut out, plan);
    push_prechecks(&mut out, &plan.prechecks);
    push_line(&mut out, one(Style::Header, "components:"));
    push_components(&mut out, &plan.components, verbose);
    push_layout(&mut out, &plan.layout);
    push_warnings(&mut out, &plan.warnings);
    push_next(&mut out, &plan.next_actions);
    assert(ui::views(out@) =~= plan_lines(*plan, verbose));
    proof {
        plans_are_shown(*plan, verbose);
    }
    out
}

} // verus!
