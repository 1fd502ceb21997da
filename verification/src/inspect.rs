//! The headless economy inspector: its command line and its text reports.

use vstd::prelude::*;
use vstd::string::StringExecFns;
use crate::catalog::lookup;
use crate::graph::{id_texts, linked_ids, RecipePart};
use crate::ids::{CommodityId, RecipeId};
use crate::validate::ValidatedEconomy;
use crate::order::{compare_text, same_text, text_lt, KeyOrder, lemma_text_lt_total, lemma_text_lt_asymmetric, lemma_text_lt_irreflexive, lemma_text_lt_transitive};
use crate::scenario::{GridPos, MapLayout, Scenario};
use crate::text::{decimal, push_char, push_decimal, push_str};

verus! {

/// The canonical data directory that the inspector reads by default.
pub const DEFAULT_DATA_DIR: &'static str = "data/canonical/v0";

/// The scenario that the inspector describes by default.
pub const DEFAULT_SCENARIO: &'static str = "scenario.copper_island.power_loop";

/// What the inspector is asked to show.
#[derive(Debug, PartialEq, Eq)]
pub enum Command {
    ListScenarios,
    Scenario { scenario_id: Option<String> },
    TileMap { scenario_id: Option<String> },
    Commodity { commodity_id: String },
    Recipe { recipe_id: String, scenario_id: Option<String> },
    Help,
}

/// The inspector's parsed command line.
#[derive(Debug, PartialEq, Eq)]
pub struct Args {
    pub data_dir: String,
    pub command: Command,
}

/// A command, with texts as character sequences.
pub enum CommandView {
    ListScenarios,
    Scenario(Option<Seq<char>>),
    TileMap(Option<Seq<char>>),
    Commodity(Seq<char>),
    Recipe(Seq<char>, Option<Seq<char>>),
    Help,
}

/// The text of an optional text.
pub open spec fn opt_text(o: Option<String>) -> Option<Seq<char>> {
    match o {
        Some(s) => Some(s@),
        None => None,
    }
}

impl View for Command {
    type V = CommandView;

    open spec fn view(&self) -> CommandView {
        match self {
            Command::ListScenarios => CommandView::ListScenarios,
            Command::Scenario { scenario_id } => CommandView::Scenario(opt_text(*scenario_id)),
            Command::TileMap { scenario_id } => CommandView::TileMap(opt_text(*scenario_id)),
            Command::Commodity { commodity_id } => CommandView::Commodity(commodity_id@),
            Command::Recipe { recipe_id, scenario_id } => CommandView::Recipe(recipe_id@, opt_text(*scenario_id)),
            Command::Help => CommandView::Help,
        }
    }
}

/// The usage text, one line per entry, joined by newlines.
pub open spec fn usage_text() -> Seq<char> {
    "Usage:"@ + "\n"@ + "  cargo run -p sim_data --bin economy_inspect -- list-scenarios"@ + "\n"@
        + "  cargo run -p sim_data --bin economy_inspect -- scenario [scenario_id]"@ + "\n"@
        + "  cargo run -p sim_data --bin economy_inspect -- map [scenario_id]"@ + "\n"@
        + "  cargo run -p sim_data --bin economy_inspect -- commodity <commodity_id>"@ + "\n"@
        + "  cargo run -p sim_data --bin economy_inspect -- recipe <recipe_id> [scenario_id]"@ + "\n"@ + ""@
        + "\n"@ + "Options:"@ + "\n"@
        + "  --data-dir <path>  Canonical data directory, default data/canonical/v0"@
}

/// The usage text of the inspector.
pub fn usage() -> (s: String)
    ensures
        s@ == usage_text(),
{
    let mut s = String::new();
    push_str(&mut s, "Usage:");
    push_str(&mut s, "\n");
    push_str(&mut s, "  cargo run -p sim_data --bin economy_inspect -- list-scenarios");
    push_str(&mut s, "\n");
    push_str(&mut s, "  cargo run -p sim_data --bin economy_inspect -- scenario [scenario_id]");
    push_str(&mut s, "\n");
    push_str(&mut s, "  cargo run -p sim_data --bin economy_inspect -- map [scenario_id]");
    push_str(&mut s, "\n");
    push_str(&mut s, "  cargo run -p sim_data --bin economy_inspect -- commodity <commodity_id>");
    push_str(&mut s, "\n");
    push_str(&mut s, "  cargo run -p sim_data --bin economy_inspect -- recipe <recipe_id> [scenario_id]");
    push_str(&mut s, "\n");
    push_str(&mut s, "");
    push_str(&mut s, "\n");
    push_str(&mut s, "Options:");
    push_str(&mut s, "\n");
    push_str(&mut s, "  --data-dir <path>  Canonical data directory, default data/canonical/v0");
    s
}

/// The leading `--data-dir <path>` options of a command line: the data
/// directory that the last of them names, and the arguments after them.
/// `None` when a `--data-dir` has no path after it.
pub open spec fn leading_options(args: Seq<Seq<char>>, data_dir: Seq<char>) -> Option<(Seq<char>, Seq<Seq<char>>)>
    decreases args.len(),
{
    if args.len() == 0 {
        Some((data_dir, args))
    } else if args[0] == "--data-dir"@ {
        if args.len() < 2 {
            None
        } else {
            leading_options(args.skip(2), args[1])
        }
    } else {
        Some((data_dir, args))
    }
}

/// The `i`-th argument, if there is one.
pub open spec fn arg_at(rest: Seq<Seq<char>>, i: int) -> Option<Seq<char>> {
    if 0 <= i < rest.len() {
        Some(rest[i])
    } else {
        None
    }
}

/// The command that the arguments after the options name, or the message of
/// the error.
pub open spec fn parse_command(rest: Seq<Seq<char>>) -> Result<CommandView, Seq<char>> {
    if rest.len() == 0 || rest[0] == "help"@ || rest[0] == "--help"@ || rest[0] == "-h"@ {
        Ok(CommandView::Help)
    } else if rest[0] == "list-scenarios"@ {
        Ok(CommandView::ListScenarios)
    } else if rest[0] == "scenario"@ {
        Ok(CommandView::Scenario(arg_at(rest, 1)))
    } else if rest[0] == "map"@ {
        Ok(CommandView::TileMap(arg_at(rest, 1)))
    } else if rest[0] == "commodity"@ {
        if rest.len() < 2 {
            Err("commodity requires a commodity id"@)
        } else {
            Ok(CommandView::Commodity(rest[1]))
        }
    } else if rest[0] == "recipe"@ {
        if rest.len() < 2 {
            Err("recipe requires a recipe id"@)
        } else {
            Ok(CommandView::Recipe(rest[1], arg_at(rest, 2)))
        }
    } else {
        Err("unknown command "@ + rest[0] + "\n\n"@ + usage_text())
    }
}

/// The data directory and command of a command line, or the message of the error.
pub open spec fn parse_args(args: Seq<Seq<char>>) -> Result<(Seq<char>, CommandView), Seq<char>> {
    match leading_options(args, DEFAULT_DATA_DIR@) {
        None => Err("--data-dir requires a path"@),
        Some((data_dir, rest)) => match parse_command(rest) {
            Ok(command) => Ok((data_dir, command)),
            Err(message) => Err(message),
        },
    }
}

/// The texts of a list of arguments.
pub open spec fn arg_texts(args: Seq<String>) -> Seq<Seq<char>> {
    args.map_values(|a: String| a@)
}

/// A copy of the `i`-th text, if there is one.
fn text_at(rest: &Vec<String>, i: usize) -> (r: Option<String>)
    ensures
        opt_text(r) == arg_at(arg_texts(rest@), i as int),
{
    if i < rest.len() {
        Some(rest[i].clone())
    } else {
        None
    }
}

fn parse_command_exec(rest: &Vec<String>) -> (r: Result<Command, String>)
    ensures
        match r {
            Ok(c) => parse_command(arg_texts(rest@)) == Ok::<CommandView, Seq<char>>(c@),
            Err(m) => parse_command(arg_texts(rest@)) == Err::<CommandView, Seq<char>>(m@),
        },
{
    let ghost texts = arg_texts(rest@);
    if rest.len() == 0 {
        return Ok(Command::Help);
    }
    let first = rest[0].as_str();
    assert(texts[0] == first@);
    if same_text(first, "help") || same_text(first, "--help") || same_text(first, "-h") {
        Ok(Command::Help)
    } else if same_text(first, "list-scenarios") {
        Ok(Command::ListScenarios)
    } else if same_text(first, "scenario") {
        Ok(Command::Scenario { scenario_id: text_at(rest, 1) })
    } else if same_text(first, "map") {
        Ok(Command::TileMap { scenario_id: text_at(rest, 1) })
    } else if same_text(first, "commodity") {
        match text_at(rest, 1) {
            Some(commodity_id) => Ok(Command::Commodity { commodity_id }),
            None => Err(String::from_str("commodity requires a commodity id")),
        }
    } else if same_text(first, "recipe") {
        match text_at(rest, 1) {
            Some(recipe_id) => Ok(Command::Recipe { recipe_id, scenario_id: text_at(rest, 2) }),
            None => Err(String::from_str("recipe requires a recipe id")),
        }
    } else {
        let mut message = String::from_str("unknown command ");
        push_str(&mut message, first);
        push_str(&mut message, "\n\n");
        let u = usage();
        push_str(&mut message, u.as_str());
        Err(message)
    }
}

impl Args {
    /// Parses the inspector's arguments (without the program name): any
    /// number of leading `--data-dir <path>` options, then a command.
    pub fn parse(args: Vec<String>) -> (r: Result<Self, String>)
        ensures
            match r {
                Ok(a) => parse_args(arg_texts(args@)) == Ok::<(Seq<char>, CommandView), Seq<char>>(
                    (a.data_dir@, a.command@),
                ),
                Err(m) => parse_args(arg_texts(args@)) == Err::<(Seq<char>, CommandView), Seq<char>>(m@),
            },
    {
        let ghost texts = arg_texts(args@);
        let mut data_dir = String::from_str(DEFAULT_DATA_DIR);
        let mut i: usize = 0;
        assert(texts.skip(0) =~= texts);
        while i < args.len()
            invariant
                texts == arg_texts(args@),
                i <= args@.len(),
                leading_options(texts, DEFAULT_DATA_DIR@) == leading_options(texts.skip(i as int), data_dir@),
            ensures
                i <= args@.len(),
                leading_options(texts, DEFAULT_DATA_DIR@) == leading_options(texts.skip(i as int), data_dir@),
                i < args@.len() ==> texts[i as int] != "--data-dir"@,
            decreases args@.len() - i,
        {
            let ghost tail = texts.skip(i as int);
            assert(tail[0] == args@[i as int]@);
            if !same_text(args[i].as_str(), "--data-dir") {
                break;
            }
            if i + 1 >= args.len() {
                return Err(String::from_str("--data-dir requires a path"));
            }
            data_dir = args[i + 1].clone();
            assert(tail[1] == args@[i + 1]@);
            assert(tail.skip(2) =~= texts.skip(i + 2));
            i = i + 2;
        }
        let mut rest: Vec<String> = Vec::new();
        let start = i;
        assert(arg_texts(rest@) =~= texts.subrange(start as int, i as int));
        while i < args.len()
            invariant
                texts == arg_texts(args@),
                start <= i <= args@.len(),
                arg_texts(rest@) == texts.subrange(start as int, i as int),
            decreases args@.len() - i,
        {
            let ghost before = rest@;
            let a = args[i].clone();
            assert(a@ == texts[i as int]);
            rest.push(a);
            assert(rest@ == before.push(a));
            assert(arg_texts(rest@) =~= arg_texts(before).push(a@));
            i = i + 1;
            assert(arg_texts(rest@) =~= texts.subrange(start as int, i as int));
        }
        proof {
            assert(texts.subrange(start as int, args@.len() as int) =~= texts.skip(start as int));
        }
        let command = parse_command_exec(&rest)?;
        Ok(Args { data_dir, command })
    }
}

/// A command line that starts with a command word is read with the default
/// data directory: `scenario` and `map` ask for the scenario named next, or
/// for the default scenario when none is named; `commodity` and `recipe` ask
/// for the id named next, and `recipe` also for the scenario after it.
pub proof fn lemma_command_words_keep_their_arguments(args: Seq<Seq<char>>)
    requires
        args.len() >= 1,
    ensures
        args[0] == "scenario"@ ==> parse_args(args) == Ok::<(Seq<char>, CommandView), Seq<char>>(
            (DEFAULT_DATA_DIR@, CommandView::Scenario(if args.len() >= 2 { Some(args[1]) } else { None })),
        ),
        args[0] == "map"@ ==> parse_args(args) == Ok::<(Seq<char>, CommandView), Seq<char>>(
            (DEFAULT_DATA_DIR@, CommandView::TileMap(if args.len() >= 2 { Some(args[1]) } else { None })),
        ),
        args[0] == "commodity"@ && args.len() >= 2 ==> parse_args(args) == Ok::<
            (Seq<char>, CommandView),
            Seq<char>,
        >((DEFAULT_DATA_DIR@, CommandView::Commodity(args[1]))),
        args[0] == "recipe"@ && args.len() >= 2 ==> parse_args(args) == Ok::<(Seq<char>, CommandView), Seq<char>>(
            (DEFAULT_DATA_DIR@, CommandView::Recipe(args[1], if args.len() >= 3 { Some(args[2]) } else { None })),
        ),
{
    reveal_strlit("--data-dir");
    reveal_strlit("scenario");
    reveal_strlit("map");
    reveal_strlit("commodity");
    reveal_strlit("recipe");
    reveal_strlit("help");
    reveal_strlit("--help");
    reveal_strlit("-h");
    reveal_strlit("list-scenarios");
    if args[0] == "scenario"@ || args[0] == "map"@ || args[0] == "commodity"@ || args[0] == "recipe"@ {
        let first = args[0][0];
        assert(first == 's' || first == 'm' || first == 'c' || first == 'r');
        assert("--data-dir"@[0] == '-' && "--help"@[0] == '-' && "-h"@[0] == '-');
        assert("help"@[0] == 'h' && "list-scenarios"@[0] == 'l');
        assert(args[0] != "--data-dir"@);
        assert(args[0] != "help"@);
        assert(args[0] != "--help"@);
        assert(args[0] != "-h"@);
        assert(args[0] != "list-scenarios"@);
        assert(leading_options(args, DEFAULT_DATA_DIR@) == Some((DEFAULT_DATA_DIR@, args)));
    }
}

/// A leading `--data-dir <path>` sets the data directory and leaves the rest
/// of the command line to be read as it would be on its own.
pub proof fn lemma_data_dir_option(path: Seq<char>, rest: Seq<Seq<char>>)
    requires
        rest.len() == 0 || rest[0] != "--data-dir"@,
    ensures
        parse_args(seq!["--data-dir"@, path] + rest) == match parse_args(rest) {
            Ok((_, command)) => Ok::<(Seq<char>, CommandView), Seq<char>>((path, command)),
            Err(message) => Err::<(Seq<char>, CommandView), Seq<char>>(message),
        },
{
    let args = seq!["--data-dir"@, path] + rest;
    assert(args[0] == "--data-dir"@);
    assert(args[1] == path);
    assert(args.skip(2) =~= rest);
    assert(leading_options(rest, path) == Some((path, rest)));
    assert(leading_options(rest, DEFAULT_DATA_DIR@) == Some((DEFAULT_DATA_DIR@, rest)));
}

/// The glyph of a tile kind on the map preview.
pub open spec fn glyph_of(kind: Seq<char>) -> char {
    if kind == "water"@ {
        '~'
    } else if kind == "forest"@ {
        'F'
    } else if kind == "coal"@ {
        'K'
    } else if kind == "copper"@ {
        'C'
    } else if kind == "iron"@ {
        'I'
    } else if kind == "limestone"@ {
        'L'
    } else if kind == "settlement"@ {
        'S'
    } else if kind == "buildable"@ {
        '.'
    } else {
        '?'
    }
}

/// The glyph of a tile kind on the map preview; `?` for an unknown kind.
pub fn tile_glyph(tile_kind: &str) -> (c: char)
    ensures
        c == glyph_of(tile_kind@),
{
    if same_text(tile_kind, "water") {
        '~'
    } else if same_text(tile_kind, "forest") {
        'F'
    } else if same_text(tile_kind, "coal") {
        'K'
    } else if same_text(tile_kind, "copper") {
        'C'
    } else if same_text(tile_kind, "iron") {
        'I'
    } else if same_text(tile_kind, "limestone") {
        'L'
    } else if same_text(tile_kind, "settlement") {
        'S'
    } else if same_text(tile_kind, "buildable") {
        '.'
    } else {
        '?'
    }
}

/// The lines `- <id>` of a list of recipe ids.
pub open spec fn recipe_lines(ids: Seq<RecipeId>) -> Seq<char>
    decreases ids.len(),
{
    if ids.len() == 0 {
        Seq::empty()
    } else {
        recipe_lines(ids.drop_last()) + "- "@ + ids.last()@ + "\n"@
    }
}

/// A labelled list of recipe ids: a blank line, the label, then one line
/// per recipe, or `- none`.
pub open spec fn recipe_list_text(label: Seq<char>, ids: Seq<RecipeId>) -> Seq<char> {
    "\n"@ + label + "\n"@ + if ids.len() == 0 {
        "- none"@ + "\n"@
    } else {
        recipe_lines(ids)
    }
}

/// Appends a labelled list of recipe ids.
pub fn write_recipe_list(output: &mut String, label: &str, recipes: &[RecipeId])
    ensures
        final(output)@ == old(output)@ + recipe_list_text(label@, recipes@),
{
    let ghost start = output@;
    push_str(output, "\n");
    push_str(output, label);
    push_str(output, "\n");
    let ghost head = output@;
    if recipes.len() == 0 {
        push_str(output, "- none");
        push_str(output, "\n");
        assert(output@ =~= start + recipe_list_text(label@, recipes@));
        return;
    }
    let mut i: usize = 0;
    assert(head + recipe_lines(recipes@.subrange(0, 0)) =~= head);
    while i < recipes.len()
        invariant
            i <= recipes@.len(),
            output@ == head + recipe_lines(recipes@.subrange(0, i as int)),
        decreases recipes@.len() - i,
    {
        let ghost upto = recipes@.subrange(0, i + 1);
        assert(upto.drop_last() =~= recipes@.subrange(0, i as int));
        push_str(output, "- ");
        push_str(output, recipes[i].as_str());
        push_str(output, "\n");
        assert(output@ =~= head + recipe_lines(upto));
        i = i + 1;
    }
    assert(recipes@.subrange(0, i as int) =~= recipes@);
    assert(output@ =~= start + recipe_list_text(label@, recipes@));
}


// ---------------------------------------------------------------------------
// The map report.

/// The kinds of a row, as texts.
pub open spec fn row_kinds(row: Vec<String>) -> Seq<Seq<char>> {
    row@.map_values(|k: String| k@)
}

/// Every tile kind of the layout, row by row.
pub open spec fn all_kinds(rows: Seq<Vec<String>>) -> Seq<Seq<char>>
    decreases rows.len(),
{
    if rows.len() == 0 {
        Seq::empty()
    } else {
        all_kinds(rows.drop_last()) + row_kinds(rows.last())
    }
}

/// Counts one more tile of kind `k` in a census sorted by kind.
pub open spec fn bump(entries: Seq<(Seq<char>, nat)>, k: Seq<char>) -> Seq<(Seq<char>, nat)>
    decreases entries.len(),
{
    if entries.len() == 0 {
        seq![(k, 1nat)]
    } else if entries[0].0 == k {
        entries.update(0, (k, entries[0].1 + 1))
    } else if text_lt(k, entries[0].0) {
        seq![(k, 1nat)] + entries
    } else {
        seq![entries[0]] + bump(entries.drop_first(), k)
    }
}

/// The tile census of a list of kinds: each kind once, in the order `str`
/// sorts them, with the number of its tiles.
pub open spec fn census(kinds: Seq<Seq<char>>) -> Seq<(Seq<char>, nat)>
    decreases kinds.len(),
{
    if kinds.len() == 0 {
        Seq::empty()
    } else {
        bump(census(kinds.drop_last()), kinds.last())
    }
}

/// The number of times `k` occurs in `kinds`.
pub open spec fn occurrences(kinds: Seq<Seq<char>>, k: Seq<char>) -> nat
    decreases kinds.len(),
{
    if kinds.len() == 0 {
        0
    } else {
        occurrences(kinds.drop_last(), k) + if kinds.last() == k { 1nat } else { 0nat }
    }
}

/// The preview glyph of the tile in row `r`, column `c`.
pub open spec fn cell_glyph(r: int, c: int, kind: Seq<char>, selected: GridPos) -> char {
    if selected.col == c && selected.row == r {
        '@'
    } else {
        glyph_of(kind)
    }
}

/// The preview of one row: its glyphs separated by spaces.
pub open spec fn row_text(kinds: Seq<Seq<char>>, r: int, selected: GridPos) -> Seq<char>
    decreases kinds.len(),
{
    if kinds.len() == 0 {
        Seq::empty()
    } else {
        row_text(kinds.drop_last(), r, selected) + (if kinds.len() > 1 {
            seq![' ']
        } else {
            Seq::empty()
        }) + seq![cell_glyph(r, kinds.len() - 1, kinds.last(), selected)]
    }
}

/// The preview of the rows, each followed by a newline.
pub open spec fn preview_text(rows: Seq<Vec<String>>, selected: GridPos) -> Seq<char>
    decreases rows.len(),
{
    if rows.len() == 0 {
        Seq::empty()
    } else {
        preview_text(rows.drop_last(), selected) + row_text(row_kinds(rows.last()), rows.len() - 1, selected)
            + "\n"@
    }
}

/// One legend line: a glyph, a space, and what it stands for.
pub open spec fn legend_line(glyph: char, label: Seq<char>) -> Seq<char> {
    seq![glyph] + " "@ + label + "\n"@
}

/// The legend of the preview glyphs.
pub open spec fn legend_text() -> Seq<char> {
    "\n"@ + "Legend"@ + "\n"@ + "@ initial selected tile"@ + "\n"@ + legend_line('~', "water"@) + legend_line(
        'F',
        "forest"@,
    ) + legend_line('K', "coal"@) + legend_line('C', "copper"@) + legend_line('I', "iron"@) + legend_line(
        'L',
        "limestone"@,
    ) + legend_line('S', "settlement"@) + legend_line('.', "buildable"@)
}

/// The census lines `- <kind>: <count>`.
pub open spec fn census_text(entries: Seq<(Seq<char>, nat)>) -> Seq<char>
    decreases entries.len(),
{
    if entries.len() == 0 {
        Seq::empty()
    } else {
        census_text(entries.drop_last()) + "- "@ + entries.last().0 + ": "@ + decimal(entries.last().1) + "\n"@
    }
}

/// The width of the layout: the length of its first row, or zero.
pub open spec fn map_width(rows: Seq<Vec<String>>) -> nat {
    if rows.len() > 0 {
        rows[0]@.len()
    } else {
        0
    }
}

/// The kind of the initially selected tile, or `unknown` when it lies outside the layout.
pub open spec fn selected_kind(layout: MapLayout) -> Seq<char> {
    let rows = layout.kind_rows@;
    let sel = layout.initial_selected;
    if sel.row < rows.len() && sel.col < rows[sel.row as int]@.len() {
        rows[sel.row as int]@[sel.col as int]@
    } else {
        "unknown"@
    }
}

/// The map report of a scenario.
pub open spec fn map_text(display_name: Seq<char>, layout: MapLayout) -> Seq<char> {
    let rows = layout.kind_rows@;
    let sel = layout.initial_selected;
    "Map: "@ + display_name + "\n"@ + "size: "@ + decimal(map_width(rows)) + "x"@ + decimal(rows.len())
        + " tiles"@ + "\n"@ + "initial selection: "@ + decimal(sel.col as nat) + ","@ + decimal(
        sel.row as nat,
    ) + " ("@ + selected_kind(layout) + ")"@ + "\n"@ + "\n"@ + "Preview"@ + "\n"@ + preview_text(rows, sel)
        + legend_text() + "\n"@ + "Tile Counts"@ + "\n"@ + census_text(census(all_kinds(rows)))
}

/// The census entries, with texts as character sequences.
pub open spec fn census_view(entries: Seq<(String, usize)>) -> Seq<(Seq<char>, nat)> {
    entries.map_values(|e: (String, usize)| (e.0@, e.1 as nat))
}

proof fn lemma_bump_at(e: Seq<(Seq<char>, nat)>, k: Seq<char>, p: int)
    requires
        0 <= p <= e.len(),
        forall|j: int| 0 <= j < p ==> text_lt(#[trigger] e[j].0, k),
        p < e.len() ==> !text_lt(e[p].0, k),
    ensures
        bump(e, k) == if p < e.len() && e[p].0 == k {
            e.update(p, (k, e[p].1 + 1))
        } else {
            e.insert(p, (k, 1nat))
        },
    decreases e.len(),
{
    if e.len() == 0 {
        assert(e.insert(0, (k, 1nat)) =~= seq![(k, 1nat)]);
    } else if p == 0 {
        if e[0].0 != k {
            lemma_text_lt_total(e[0].0, k);
            assert(e.insert(0, (k, 1nat)) =~= seq![(k, 1nat)] + e);
        }
    } else {
        assert(text_lt(e[0].0, k));
        lemma_text_lt_asymmetric(e[0].0, k);
        let rest = e.drop_first();
        assert forall|j: int| 0 <= j < p - 1 implies text_lt(#[trigger] rest[j].0, k) by {
            assert(rest[j] == e[j + 1]);
        }
        lemma_bump_at(rest, k, p - 1);
        if p < e.len() && e[p].0 == k {
            assert(seq![e[0]] + rest.update(p - 1, (k, e[p].1 + 1)) =~= e.update(p, (k, e[p].1 + 1)));
        } else {
            assert(seq![e[0]] + rest.insert(p - 1, (k, 1nat)) =~= e.insert(p, (k, 1nat)));
        }
    }
}

/// Counts one more tile of `kind`.
fn bump_census(entries: &mut Vec<(String, usize)>, kind: &String)
    requires
        forall|j: int| 0 <= j < old(entries)@.len() ==> #[trigger] old(entries)@[j].1 < usize::MAX,
    ensures
        census_view(final(entries)@) == bump(census_view(old(entries)@), kind@),
{
    let ghost before = census_view(entries@);
    let mut p: usize = 0;
    while p < entries.len()
        invariant
            before == census_view(entries@),
            p <= entries@.len(),
            forall|j: int| 0 <= j < p ==> text_lt(#[trigger] before[j].0, kind@),
        ensures
            p <= entries@.len(),
            forall|j: int| 0 <= j < p ==> text_lt(#[trigger] before[j].0, kind@),
            p < entries@.len() ==> !text_lt(before[p as int].0, kind@),
        decreases entries@.len() - p,
    {
        if compare_text(entries[p].0.as_str(), kind.as_str()) != KeyOrder::Before {
            break;
        }
        p = p + 1;
    }
    proof {
        lemma_bump_at(before, kind@, p as int);
    }
    if p < entries.len() && same_text(entries[p].0.as_str(), kind.as_str()) {
        let (name, count) = entries.remove(p);
        entries.insert(p, (name, count + 1));
        assert(census_view(entries@) =~= before.update(p as int, (kind@, before[p as int].1 + 1)));
    } else {
        let ghost old_entries = entries@;
        entries.insert(p, (kind.clone(), 1));
        assert(census_view(entries@) =~= before.insert(p as int, (kind@, 1nat)));
    }
}

proof fn lemma_bump_counts(e: Seq<(Seq<char>, nat)>, k: Seq<char>, bound: nat)
    requires
        forall|j: int| 0 <= j < e.len() ==> #[trigger] e[j].1 <= bound,
    ensures
        forall|j: int| 0 <= j < bump(e, k).len() ==> #[trigger] bump(e, k)[j].1 <= bound + 1,
    decreases e.len(),
{
    if e.len() > 0 && e[0].0 != k && !text_lt(k, e[0].0) {
        lemma_bump_counts(e.drop_first(), k, bound);
        let b = bump(e, k);
        assert forall|j: int| 0 <= j < b.len() implies #[trigger] b[j].1 <= bound + 1 by {
            if j > 0 {
                assert(b[j] == bump(e.drop_first(), k)[j - 1]);
            }
        }
    }
}

/// Appends the preview of one row.
fn write_row(output: &mut String, row: &Vec<String>, r: usize, sel: GridPos)
    ensures
        final(output)@ == old(output)@ + row_text(row_kinds(*row), r as int, sel),
{
    let ghost kinds = row_kinds(*row);
    let ghost row_start = output@;
    let mut c: usize = 0;
    assert(row_start + row_text(kinds.subrange(0, 0), r as int, sel) =~= row_start);
    while c < row.len()
        invariant
            kinds == row_kinds(*row),
            c <= row@.len(),
            output@ == row_start + row_text(kinds.subrange(0, c as int), r as int, sel),
        decreases row@.len() - c,
    {
        let ghost upto = kinds.subrange(0, c + 1);
        let ghost before = output@;
        assert(upto.drop_last() =~= kinds.subrange(0, c as int));
        assert(upto.last() == row@[c as int]@);
        if c > 0 {
            push_char(output, ' ');
        }
        let ghost spaced = output@;
        assert(spaced =~= before + (if upto.len() > 1 { seq![' '] } else { Seq::<char>::empty() }));
        let selected = sel.col == c && sel.row == r;
        let glyph = if selected {
            '@'
        } else {
            tile_glyph(row[c].as_str())
        };
        assert(glyph == cell_glyph(r as int, c as int, upto.last(), sel));
        push_char(output, glyph);
        assert(output@ =~= row_start + row_text(upto, r as int, sel));
        c = c + 1;
    }
    assert(kinds.subrange(0, c as int) =~= kinds);
}

/// Appends the preview of every row.
fn write_preview(output: &mut String, rows: &Vec<Vec<String>>, sel: GridPos)
    ensures
        final(output)@ == old(output)@ + preview_text(rows@, sel),
{
    let ghost head = output@;
    let mut r: usize = 0;
    assert(head + preview_text(rows@.subrange(0, 0), sel) =~= head);
    while r < rows.len()
        invariant
            r <= rows@.len(),
            output@ == head + preview_text(rows@.subrange(0, r as int), sel),
        decreases rows@.len() - r,
    {
        write_row(output, &rows[r], r, sel);
        push_str(output, "\n");
        let ghost rows_upto = rows@.subrange(0, r + 1);
        assert(rows_upto.drop_last() =~= rows@.subrange(0, r as int));
        assert(output@ =~= head + preview_text(rows_upto, sel));
        r = r + 1;
    }
    assert(rows@.subrange(0, r as int) =~= rows@);
}

/// Appends one legend line.
fn write_legend_line(output: &mut String, glyph: char, label: &str)
    ensures
        final(output)@ == old(output)@ + legend_line(glyph, label@),
{
    let ghost start = output@;
    push_char(output, glyph);
    push_str(output, " ");
    push_str(output, label);
    push_str(output, "\n");
    assert(output@ =~= start + legend_line(glyph, label@));
}

/// Appends the legend.
fn write_legend(output: &mut String)
    ensures
        final(output)@ == old(output)@ + legend_text(),
{
    let ghost start = output@;
    push_str(output, "\n");
    push_str(output, "Legend");
    push_str(output, "\n");
    push_str(output, "@ initial selected tile");
    push_str(output, "\n");
    let ghost s0 = output@;
    write_legend_line(output, '~', "water");
    write_legend_line(output, 'F', "forest");
    write_legend_line(output, 'K', "coal");
    write_legend_line(output, 'C', "copper");
    let ghost s4 = output@;
    write_legend_line(output, 'I', "iron");
    write_legend_line(output, 'L', "limestone");
    write_legend_line(output, 'S', "settlement");
    write_legend_line(output, '.', "buildable");
    assert(s0 =~= start + "\n"@ + "Legend"@ + "\n"@ + "@ initial selected tile"@ + "\n"@);
    assert(s4 =~= s0 + legend_line('~', "water"@) + legend_line('F', "forest"@) + legend_line('K', "coal"@)
        + legend_line('C', "copper"@));
    assert(output@ =~= s4 + legend_line('I', "iron"@) + legend_line('L', "limestone"@) + legend_line(
        'S',
        "settlement"@,
    ) + legend_line('.', "buildable"@));
    assert(output@ =~= start + legend_text());
}

/// Counts the tiles of each kind.
fn tile_census(rows: &Vec<Vec<String>>) -> (counts: Vec<(String, usize)>)
    requires
        all_kinds(rows@).len() < usize::MAX,
    ensures
        census_view(counts@) == census(all_kinds(rows@)),
{
    let mut counts: Vec<(String, usize)> = Vec::new();
    let ghost total = all_kinds(rows@).len();
    let mut r: usize = 0;
    assert(census_view(counts@) =~= census(all_kinds(rows@.subrange(0, 0))));
    while r < rows.len()
        invariant
            total == all_kinds(rows@).len(),
            total < usize::MAX,
            r <= rows@.len(),
            census_view(counts@) == census(all_kinds(rows@.subrange(0, r as int))),
            forall|j: int| 0 <= j < counts@.len() ==> #[trigger] counts@[j].1 <= all_kinds(rows@.subrange(0, r as int)).len(),
        decreases rows@.len() - r,
    {
        let row = &rows[r];
        let ghost done = all_kinds(rows@.subrange(0, r as int));
        let ghost rows_upto = rows@.subrange(0, r + 1);
        proof {
            assert(rows_upto.drop_last() =~= rows@.subrange(0, r as int));
            assert(all_kinds(rows_upto) == done + row_kinds(*row));
            lemma_all_kinds_prefix(rows@, r + 1);
        }
        let mut c: usize = 0;
        assert(done + row_kinds(*row).subrange(0, 0) =~= done);
        while c < row.len()
            invariant
                total == all_kinds(rows@).len(),
                total < usize::MAX,
                done.len() + row@.len() <= total,
                c <= row@.len(),
                census_view(counts@) == census(done + row_kinds(*row).subrange(0, c as int)),
                forall|j: int| 0 <= j < counts@.len() ==> #[trigger] counts@[j].1 <= done.len() + c,
            decreases row@.len() - c,
        {
            let ghost seen = done + row_kinds(*row).subrange(0, c as int);
            let ghost next = done + row_kinds(*row).subrange(0, c + 1);
            proof {
                assert(next.drop_last() =~= seen);
                assert(next.last() == row@[c as int]@);
                lemma_bump_counts(census_view(counts@), row@[c as int]@, (done.len() + c) as nat);
                assert forall|j: int| 0 <= j < counts@.len() implies #[trigger] counts@[j].1 < usize::MAX by {
                    assert(census_view(counts@)[j].1 == counts@[j].1);
                }
            }
            bump_census(&mut counts, &row[c]);
            proof {
                assert forall|j: int| 0 <= j < counts@.len() implies #[trigger] counts@[j].1 <= done.len() + c + 1 by {
                    assert(census_view(counts@)[j].1 == counts@[j].1);
                }
            }
            c = c + 1;
        }
        assert(row_kinds(*row).subrange(0, c as int) =~= row_kinds(*row));
        r = r + 1;
    }
    assert(rows@.subrange(0, r as int) =~= rows@);
    counts
}

/// Appends the census lines.
fn write_census(output: &mut String, counts: &Vec<(String, usize)>)
    ensures
        final(output)@ == old(output)@ + census_text(census_view(counts@)),
{
    let ghost before_counts = output@;
    let mut i: usize = 0;
    assert(before_counts + census_text(census_view(counts@).subrange(0, 0)) =~= before_counts);
    while i < counts.len()
        invariant
            i <= counts@.len(),
            output@ == before_counts + census_text(census_view(counts@).subrange(0, i as int)),
        decreases counts@.len() - i,
    {
        let ghost upto = census_view(counts@).subrange(0, i + 1);
        assert(upto.drop_last() =~= census_view(counts@).subrange(0, i as int));
        push_str(output, "- ");
        push_str(output, counts[i].0.as_str());
        push_str(output, ": ");
        push_decimal(output, counts[i].1 as u64);
        push_str(output, "\n");
        assert(output@ =~= before_counts + census_text(upto));
        i = i + 1;
    }
    assert(census_view(counts@).subrange(0, i as int) =~= census_view(counts@));
}

/// The map report of a scenario: its size, the initially selected tile, a
/// glyph preview, the legend, and the number of tiles of each kind.
pub fn describe_map(scenario: &Scenario) -> (output: String)
    requires
        all_kinds(scenario.map_layout.kind_rows@).len() < usize::MAX,
    ensures
        output@ == map_text(scenario.display_name@, scenario.map_layout),
{
    let layout = &scenario.map_layout;
    let rows = &layout.kind_rows;
    let sel = layout.initial_selected;
    let mut output = String::new();
    let map_width: usize = if rows.len() > 0 {
        rows[0].len()
    } else {
        0
    };
    push_str(&mut output, "Map: ");
    push_str(&mut output, scenario.display_name.as_str());
    push_str(&mut output, "\n");
    push_str(&mut output, "size: ");
    push_decimal(&mut output, map_width as u64);
    push_str(&mut output, "x");
    push_decimal(&mut output, rows.len() as u64);
    push_str(&mut output, " tiles");
    push_str(&mut output, "\n");
    push_str(&mut output, "initial selection: ");
    push_decimal(&mut output, sel.col as u64);
    push_str(&mut output, ",");
    push_decimal(&mut output, sel.row as u64);
    push_str(&mut output, " (");
    if sel.row < rows.len() && sel.col < rows[sel.row].len() {
        push_str(&mut output, rows[sel.row][sel.col].as_str());
    } else {
        push_str(&mut output, "unknown");
    }
    push_str(&mut output, ")");
    push_str(&mut output, "\n");
    push_str(&mut output, "\n");
    push_str(&mut output, "Preview");
    push_str(&mut output, "\n");
    write_preview(&mut output, rows, sel);
    write_legend(&mut output);
    push_str(&mut output, "\n");
    push_str(&mut output, "Tile Counts");
    push_str(&mut output, "\n");
    let counts = tile_census(rows);
    write_census(&mut output, &counts);
    assert(output@ =~= map_text(scenario.display_name@, scenario.map_layout));
    output
}

proof fn lemma_all_kinds_prefix(rows: Seq<Vec<String>>, n: int)
    requires
        0 <= n <= rows.len(),
    ensures
        all_kinds(rows.subrange(0, n)).len() <= all_kinds(rows).len(),
    decreases rows.len(),
{
    if n < rows.len() {
        assert(rows.drop_last().subrange(0, n) =~= rows.subrange(0, n));
        lemma_all_kinds_prefix(rows.drop_last(), n);
    } else {
        assert(rows.subrange(0, n) =~= rows);
    }
}

/// The number of tiles of a layout, or `None` where that number does not
/// stay below `usize::MAX` (the bound under which the map report counts).
pub fn all_kinds_count(rows: &Vec<Vec<String>>) -> (n: Option<usize>)
    ensures
        match n {
            Some(k) => k == all_kinds(rows@).len() && k < usize::MAX,
            None => all_kinds(rows@).len() >= usize::MAX,
        },
{
    let mut total: usize = 0;
    let mut r: usize = 0;
    while r < rows.len()
        invariant
            r <= rows@.len(),
            total == all_kinds(rows@.subrange(0, r as int)).len(),
            total < usize::MAX,
        decreases rows@.len() - r,
    {
        let ghost rows_upto = rows@.subrange(0, r + 1);
        let len = rows[r].len();
        proof {
            assert(rows_upto.drop_last() =~= rows@.subrange(0, r as int));
            assert(rows_upto.last() == rows@[r as int]);
            assert(row_kinds(rows@[r as int]).len() == len);
            assert(all_kinds(rows_upto).len() == total + len);
        }
        if len >= usize::MAX - total {
            proof {
                lemma_all_kinds_prefix(rows@, r + 1);
            }
            return None;
        }
        total = total + len;
        r = r + 1;
    }
    assert(rows@.subrange(0, r as int) =~= rows@);
    Some(total)
}


// ---------------------------------------------------------------------------
// The scenario list and the commodity report.

/// The lines `- <id>: <name>` of a list of scenarios.
pub open spec fn scenario_lines(scenarios: Seq<Scenario>) -> Seq<char>
    decreases scenarios.len(),
{
    if scenarios.len() == 0 {
        Seq::empty()
    } else {
        scenario_lines(scenarios.drop_last()) + "- "@ + scenarios.last().id@ + ": "@
            + scenarios.last().display_name@ + "\n"@
    }
}

/// The list of scenarios: a heading, then one line per scenario.
pub fn list_scenarios(scenarios: &[Scenario]) -> (output: String)
    ensures
        output@ == "Scenarios"@ + "\n"@ + scenario_lines(scenarios@),
{
    let mut output = String::new();
    push_str(&mut output, "Scenarios");
    push_str(&mut output, "\n");
    let ghost head = output@;
    let mut i: usize = 0;
    assert(head + scenario_lines(scenarios@.subrange(0, 0)) =~= head);
    while i < scenarios.len()
        invariant
            i <= scenarios@.len(),
            head == "Scenarios"@ + "\n"@,
            output@ == head + scenario_lines(scenarios@.subrange(0, i as int)),
        decreases scenarios@.len() - i,
    {
        let ghost upto = scenarios@.subrange(0, i + 1);
        assert(upto.drop_last() =~= scenarios@.subrange(0, i as int));
        push_str(&mut output, "- ");
        push_str(&mut output, scenarios[i].id.as_str());
        push_str(&mut output, ": ");
        push_str(&mut output, scenarios[i].display_name.as_str());
        push_str(&mut output, "\n");
        assert(output@ =~= head + scenario_lines(upto));
        i = i + 1;
    }
    assert(scenarios@.subrange(0, i as int) =~= scenarios@);
    output
}

/// The index of the last scenario with id `id`, if any.
pub open spec fn last_scenario_index(scenarios: Seq<Scenario>, id: Seq<char>) -> Option<int>
    decreases scenarios.len(),
{
    if scenarios.len() == 0 {
        None
    } else if scenarios.last().id@ == id {
        Some(scenarios.len() - 1)
    } else {
        last_scenario_index(scenarios.drop_last(), id)
    }
}

/// The scenario chosen for an id carries that id, and no later scenario
/// does; when none is chosen, no scenario carries the id.
pub proof fn lemma_chosen_scenario_has_the_id(scenarios: Seq<Scenario>, id: Seq<char>)
    ensures
        last_scenario_index(scenarios, id) matches Some(i) ==> 0 <= i < scenarios.len() && scenarios[i].id@ == id
            && forall|j: int| i < j < scenarios.len() ==> #[trigger] scenarios[j].id@ != id,
        last_scenario_index(scenarios, id) is None ==> forall|j: int|
            0 <= j < scenarios.len() ==> #[trigger] scenarios[j].id@ != id,
    decreases scenarios.len(),
{
    if scenarios.len() > 0 {
        let prev = scenarios.drop_last();
        let n = scenarios.len() - 1;
        lemma_chosen_scenario_has_the_id(prev, id);
        if scenarios[n].id@ == id {
            assert(last_scenario_index(scenarios, id) == Some(n));
        } else {
            assert(last_scenario_index(scenarios, id) == last_scenario_index(prev, id));
            assert forall|j: int| 0 <= j < n implies #[trigger] scenarios[j].id@ == prev[j].id@ by {}
            match last_scenario_index(prev, id) {
                Some(i) => {
                    assert forall|j: int| i < j < scenarios.len() implies #[trigger] scenarios[j].id@ != id by {
                        if j < n {
                            assert(prev[j].id@ != id);
                        }
                    }
                },
                None => {
                    assert forall|j: int| 0 <= j < scenarios.len() implies #[trigger] scenarios[j].id@ != id by {
                        if j < n {
                            assert(prev[j].id@ != id);
                        }
                    }
                },
            }
        }
    }
}

/// The scenario an inspector command is about: the one with the requested
/// id (the default scenario when none is requested; the last one when ids
/// repeat), else the first scenario, else an error.
pub fn select_scenario<'a>(scenarios: &'a [Scenario], scenario_id: Option<&str>) -> (r: Result<&'a Scenario, String>)
    ensures
        ({
            let id = match scenario_id {
                Some(s) => s@,
                None => DEFAULT_SCENARIO@,
            };
            match r {
                Ok(s) => match last_scenario_index(scenarios@, id) {
                    Some(i) => *s == scenarios@[i],
                    None => scenarios@.len() > 0 && *s == scenarios@[0],
                },
                Err(m) => last_scenario_index(scenarios@, id) is None && scenarios@.len() == 0 && m@
                    == "no scenarios are defined"@,
            }
        }),
{
    let id = match scenario_id {
        Some(s) => s,
        None => DEFAULT_SCENARIO,
    };
    let ghost spec_id = match scenario_id {
        Some(s) => s@,
        None => DEFAULT_SCENARIO@,
    };
    assert(id@ == spec_id);
    let mut i = scenarios.len();
    assert(scenarios@.subrange(0, i as int) =~= scenarios@);
    while i > 0
        invariant
            i <= scenarios@.len(),
            id@ == spec_id,
            spec_id == match scenario_id {
                Some(s) => s@,
                None => DEFAULT_SCENARIO@,
            },
            last_scenario_index(scenarios@, id@) == last_scenario_index(scenarios@.subrange(0, i as int), id@),
        decreases i,
    {
        let ghost prefix = scenarios@.subrange(0, i as int);
        assert(prefix.drop_last() =~= scenarios@.subrange(0, i - 1));
        if same_text(scenarios[i - 1].id.as_str(), id) {
            assert(prefix.last() == scenarios@[i - 1]);
            assert(last_scenario_index(prefix, id@) == Some((i - 1) as int));
            return Ok(&scenarios[i - 1]);
        }
        i = i - 1;
    }
    if scenarios.len() > 0 {
        Ok(&scenarios[0])
    } else {
        Err(String::from_str("no scenarios are defined"))
    }
}

/// How a commodity is shown: its display name and id when the economy
/// defines it, else its id.
pub open spec fn commodity_label(economy: ValidatedEconomy, commodity: Seq<char>) -> Seq<char> {
    match lookup(economy.commodities_by_id@, commodity) {
        Some(c) => c.display_name@ + " ("@ + c.id@ + ")"@,
        None => commodity,
    }
}

/// How a commodity is shown in the inspector's reports.
pub fn display_commodity(economy: &ValidatedEconomy, commodity: &CommodityId) -> (s: String)
    ensures
        s@ == commodity_label(*economy, commodity@),
{
    match economy.commodities_by_id.get(commodity.as_str()) {
        Some(data) => {
            let mut s = data.display_name.clone();
            push_str(&mut s, " (");
            push_str(&mut s, data.id.as_str());
            push_str(&mut s, ")");
            s
        },
        None => commodity.to_text(),
    }
}

/// The commodity report: the commodity, then the recipes that produce it,
/// need it, and leave it over.
pub open spec fn commodity_report(economy: ValidatedEconomy, commodity: Seq<char>) -> Seq<char> {
    let recipes = economy.recipe_book@;
    "Commodity: "@ + commodity_label(economy, commodity) + "\n"@ + labelled_ids(
        "Produced By"@,
        linked_ids(recipes, commodity, RecipePart::Outputs),
    ) + labelled_ids("Required By"@, linked_ids(recipes, commodity, RecipePart::Inputs)) + labelled_ids(
        "Byproduct Of"@,
        linked_ids(recipes, commodity, RecipePart::Byproducts),
    )
}

/// A labelled list of ids, as `write_recipe_list` writes it.
pub open spec fn labelled_ids(label: Seq<char>, ids: Seq<Seq<char>>) -> Seq<char> {
    "\n"@ + label + "\n"@ + if ids.len() == 0 {
        "- none"@ + "\n"@
    } else {
        id_lines(ids)
    }
}

/// The lines `- <id>` of a list of ids.
pub open spec fn id_lines(ids: Seq<Seq<char>>) -> Seq<char>
    decreases ids.len(),
{
    if ids.len() == 0 {
        Seq::empty()
    } else {
        id_lines(ids.drop_last()) + "- "@ + ids.last() + "\n"@
    }
}

proof fn lemma_recipe_list_text(label: Seq<char>, ids: Seq<RecipeId>)
    ensures
        recipe_list_text(label, ids) == labelled_ids(label, id_texts(ids)),
{
    lemma_recipe_lines(ids);
}

proof fn lemma_recipe_lines(ids: Seq<RecipeId>)
    ensures
        recipe_lines(ids) == id_lines(id_texts(ids)),
    decreases ids.len(),
{
    if ids.len() > 0 {
        lemma_recipe_lines(ids.drop_last());
        assert(id_texts(ids).drop_last() =~= id_texts(ids.drop_last()));
    }
}

/// The report on one commodity: how it is shown and which recipes produce,
/// need, and leave it over.
pub fn describe_commodity(economy: &ValidatedEconomy, commodity: &CommodityId) -> (output: String)
    ensures
        output@ == commodity_report(*economy, commodity@),
{
    let links = economy.recipe_book.links_for(commodity);
    let mut output = String::new();
    push_str(&mut output, "Commodity: ");
    let label = display_commodity(economy, commodity);
    push_str(&mut output, label.as_str());
    push_str(&mut output, "\n");
    write_recipe_list(&mut output, "Produced By", links.produced_by.as_slice());
    write_recipe_list(&mut output, "Required By", links.required_by.as_slice());
    write_recipe_list(&mut output, "Byproduct Of", links.byproduct_of.as_slice());
    proof {
        lemma_recipe_list_text("Produced By"@, links.produced_by@);
        lemma_recipe_list_text("Required By"@, links.required_by@);
        lemma_recipe_list_text("Byproduct Of"@, links.byproduct_of@);
    }
    assert(output@ =~= commodity_report(*economy, commodity@));
    output
}

// ---------------------------------------------------------------------------
// The tile census counts every kind once, in order.

/// The entries are strictly increasing by kind.
pub open spec fn census_sorted(e: Seq<(Seq<char>, nat)>) -> bool {
    forall|i: int, j: int| 0 <= i < j < e.len() ==> text_lt(#[trigger] e[i].0, #[trigger] e[j].0)
}

/// The sum of the counts that the entries give kind `x`.
pub open spec fn count_in(e: Seq<(Seq<char>, nat)>, x: Seq<char>) -> nat
    decreases e.len(),
{
    if e.len() == 0 {
        0
    } else {
        (if e[0].0 == x { e[0].1 } else { 0nat }) + count_in(e.drop_first(), x)
    }
}

proof fn lemma_bump_count(e: Seq<(Seq<char>, nat)>, k: Seq<char>, x: Seq<char>)
    ensures
        count_in(bump(e, k), x) == count_in(e, x) + if x == k { 1nat } else { 0nat },
    decreases e.len(),
{
    let b = bump(e, k);
    if e.len() == 0 {
        assert(b.drop_first() =~= Seq::<(Seq<char>, nat)>::empty());
        assert(count_in(b.drop_first(), x) == 0);
        assert(count_in(e, x) == 0);
    } else if e[0].0 == k {
        assert(b.drop_first() =~= e.drop_first());
        assert(b[0] == (k, e[0].1 + 1));
    } else if text_lt(k, e[0].0) {
        assert(b.drop_first() =~= e);
        assert(b[0] == (k, 1nat));
    } else {
        lemma_bump_count(e.drop_first(), k, x);
        assert(b.drop_first() =~= bump(e.drop_first(), k));
    }
}

proof fn lemma_bump_keys(e: Seq<(Seq<char>, nat)>, k: Seq<char>)
    ensures
        forall|j: int| 0 <= j < bump(e, k).len() ==> (#[trigger] bump(e, k)[j]).0 == k || exists|i: int|
            0 <= i < e.len() && e[i].0 == bump(e, k)[j].0,
        forall|j: int| 0 <= j < bump(e, k).len() ==> (#[trigger] bump(e, k)[j]).1 >= 1 || exists|i: int|
            0 <= i < e.len() && e[i] == bump(e, k)[j],
    decreases e.len(),
{
    let b = bump(e, k);
    if e.len() == 0 {
    } else if e[0].0 == k {
        assert forall|j: int| 0 <= j < b.len() implies (#[trigger] b[j]).1 >= 1 || exists|i: int|
            0 <= i < e.len() && e[i] == b[j] by {
            if j > 0 {
                assert(e[j] == b[j]);
            }
        }
        assert forall|j: int| 0 <= j < b.len() implies (#[trigger] b[j]).0 == k || exists|i: int|
            0 <= i < e.len() && e[i].0 == b[j].0 by {
            if j > 0 {
                assert(e[j] == b[j]);
            }
        }
    } else if text_lt(k, e[0].0) {
        assert forall|j: int| 0 <= j < b.len() implies (#[trigger] b[j]).0 == k || exists|i: int|
            0 <= i < e.len() && e[i].0 == b[j].0 by {
            if j > 0 {
                assert(e[j - 1] == b[j]);
            }
        }
        assert forall|j: int| 0 <= j < b.len() implies (#[trigger] b[j]).1 >= 1 || exists|i: int|
            0 <= i < e.len() && e[i] == b[j] by {
            if j > 0 {
                assert(e[j - 1] == b[j]);
            }
        }
    } else {
        let rest = e.drop_first();
        lemma_bump_keys(rest, k);
        let br = bump(rest, k);
        assert forall|j: int| 0 <= j < b.len() implies (#[trigger] b[j]).0 == k || exists|i: int|
            0 <= i < e.len() && e[i].0 == b[j].0 by {
            if j == 0 {
                assert(e[0] == b[0]);
            } else {
                assert(b[j] == br[j - 1]);
                if br[j - 1].0 != k {
                    let i = choose|i: int| 0 <= i < rest.len() && rest[i].0 == br[j - 1].0;
                    assert(e[i + 1] == rest[i]);
                }
            }
        }
        assert forall|j: int| 0 <= j < b.len() implies (#[trigger] b[j]).1 >= 1 || exists|i: int|
            0 <= i < e.len() && e[i] == b[j] by {
            if j == 0 {
                assert(e[0] == b[0]);
            } else {
                assert(b[j] == br[j - 1]);
                if br[j - 1].1 < 1 {
                    let i = choose|i: int| 0 <= i < rest.len() && rest[i] == br[j - 1];
                    assert(e[i + 1] == rest[i]);
                }
            }
        }
    }
}

proof fn lemma_bump_sorted(e: Seq<(Seq<char>, nat)>, k: Seq<char>)
    requires
        census_sorted(e),
    ensures
        census_sorted(bump(e, k)),
    decreases e.len(),
{
    let b = bump(e, k);
    if e.len() == 0 {
    } else if e[0].0 == k {
        assert forall|i: int, j: int| 0 <= i < j < b.len() implies text_lt(#[trigger] b[i].0, #[trigger] b[j].0) by {
            assert(b[i].0 == e[i].0);
            assert(b[j].0 == e[j].0);
        }
    } else if text_lt(k, e[0].0) {
        assert forall|i: int, j: int| 0 <= i < j < b.len() implies text_lt(#[trigger] b[i].0, #[trigger] b[j].0) by {
            if i == 0 {
                if j > 1 {
                    lemma_text_lt_transitive(k, e[0].0, e[j - 1].0);
                }
            } else {
                assert(b[i] == e[i - 1] && b[j] == e[j - 1]);
            }
        }
    } else {
        let rest = e.drop_first();
        assert(census_sorted(rest)) by {
            assert forall|i: int, j: int| 0 <= i < j < rest.len() implies text_lt(
                #[trigger] rest[i].0,
                #[trigger] rest[j].0,
            ) by {
                assert(rest[i] == e[i + 1] && rest[j] == e[j + 1]);
            }
        }
        lemma_bump_sorted(rest, k);
        lemma_bump_keys(rest, k);
        lemma_text_lt_total(k, e[0].0);
        let br = bump(rest, k);
        assert forall|i: int, j: int| 0 <= i < j < b.len() implies text_lt(#[trigger] b[i].0, #[trigger] b[j].0) by {
            assert(b[j] == br[j - 1]);
            if i == 0 {
                assert(b[0] == e[0]);
                if br[j - 1].0 != k {
                    let m = choose|m: int| 0 <= m < rest.len() && rest[m].0 == br[j - 1].0;
                    assert(rest[m] == e[m + 1]);
                }
            } else {
                assert(b[i] == br[i - 1]);
            }
        }
    }
}

proof fn lemma_count_in_sorted(e: Seq<(Seq<char>, nat)>, j: int)
    requires
        census_sorted(e),
        0 <= j < e.len(),
    ensures
        count_in(e, e[j].0) == e[j].1,
    decreases e.len(),
{
    let rest = e.drop_first();
    assert(census_sorted(rest)) by {
        assert forall|a: int, b: int| 0 <= a < b < rest.len() implies text_lt(#[trigger] rest[a].0, #[trigger] rest[b].0) by {
            assert(rest[a] == e[a + 1] && rest[b] == e[b + 1]);
        }
    }
    if j == 0 {
        lemma_count_in_absent(rest, e[0].0);
    } else {
        assert(text_lt(e[0].0, e[j].0));
        lemma_text_lt_irreflexive(e[j].0);
        assert(rest[j - 1] == e[j]);
        lemma_count_in_sorted(rest, j - 1);
    }
}

proof fn lemma_count_in_absent(e: Seq<(Seq<char>, nat)>, x: Seq<char>)
    requires
        forall|i: int| 0 <= i < e.len() ==> text_lt(x, #[trigger] e[i].0),
    ensures
        count_in(e, x) == 0,
    decreases e.len(),
{
    if e.len() > 0 {
        lemma_text_lt_irreflexive(x);
        let rest = e.drop_first();
        assert forall|i: int| 0 <= i < rest.len() implies text_lt(x, #[trigger] rest[i].0) by {
            assert(rest[i] == e[i + 1]);
        }
        lemma_count_in_absent(rest, x);
    }
}

proof fn lemma_count_in_present(e: Seq<(Seq<char>, nat)>, x: Seq<char>)
    requires
        count_in(e, x) > 0,
    ensures
        exists|j: int| 0 <= j < e.len() && #[trigger] e[j].0 == x,
    decreases e.len(),
{
    if e[0].0 != x {
        lemma_count_in_present(e.drop_first(), x);
        let j = choose|j: int| 0 <= j < e.drop_first().len() && #[trigger] e.drop_first()[j].0 == x;
        assert(e[j + 1] == e.drop_first()[j]);
    } else {
        assert(e[0].0 == x);
    }
}

proof fn lemma_census_facts(kinds: Seq<Seq<char>>)
    ensures
        census_sorted(census(kinds)),
        forall|x: Seq<char>| #[trigger] count_in(census(kinds), x) == occurrences(kinds, x),
        forall|j: int| 0 <= j < census(kinds).len() ==> (#[trigger] census(kinds)[j]).1 >= 1,
    decreases kinds.len(),
{
    if kinds.len() > 0 {
        let prev = census(kinds.drop_last());
        lemma_census_facts(kinds.drop_last());
        lemma_bump_sorted(prev, kinds.last());
        lemma_bump_keys(prev, kinds.last());
        assert forall|x: Seq<char>| #[trigger] count_in(census(kinds), x) == occurrences(kinds, x) by {
            lemma_bump_count(prev, kinds.last(), x);
        }
        let c = census(kinds);
        assert forall|j: int| 0 <= j < c.len() implies (#[trigger] c[j]).1 >= 1 by {
            if c[j].1 < 1 {
                let i = choose|i: int| 0 <= i < prev.len() && prev[i] == c[j];
                assert(prev[i].1 >= 1);
            }
        }
    }
}

/// The tile census lists each kind that occurs exactly once, in the order
/// `str` sorts kinds, with the number of tiles of that kind.
pub proof fn lemma_census_counts_each_kind_once(kinds: Seq<Seq<char>>)
    ensures
        census_sorted(census(kinds)),
        forall|j: int|
            0 <= j < census(kinds).len() ==> (#[trigger] census(kinds)[j]).1 == occurrences(kinds, census(kinds)[j].0)
                && census(kinds)[j].1 >= 1,
        forall|x: Seq<char>|
            occurrences(kinds, x) > 0 <==> exists|j: int| 0 <= j < census(kinds).len() && #[trigger] census(kinds)[j].0 == x,
{
    lemma_census_facts(kinds);
    let c = census(kinds);
    assert forall|j: int| 0 <= j < c.len() implies (#[trigger] c[j]).1 == occurrences(kinds, c[j].0) && c[j].1 >= 1 by {
        lemma_count_in_sorted(c, j);
        assert(count_in(c, c[j].0) == occurrences(kinds, c[j].0));
    }
    assert forall|x: Seq<char>| occurrences(kinds, x) > 0 <==> exists|j: int| 0 <= j < c.len() && #[trigger] c[j].0 == x by {
        assert(count_in(c, x) == occurrences(kinds, x));
        if occurrences(kinds, x) > 0 {
            lemma_count_in_present(c, x);
        }
        if exists|j: int| 0 <= j < c.len() && #[trigger] c[j].0 == x {
            let j = choose|j: int| 0 <= j < c.len() && #[trigger] c[j].0 == x;
            lemma_count_in_sorted(c, j);
            assert(c[j].1 >= 1);
        }
    }
}

} // verus!
