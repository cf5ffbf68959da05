//! What the completion providers read of a LaTeX document: positions,
//! ranges, and the commands with their arguments.
use vstd::prelude::*;

verus! {

/// A place in a text: a line and a character in it.
#[derive(Clone, Copy, Debug, PartialEq, Eq, Structural)]
pub struct Position {
    pub line: u32,
    pub character: u32,
}

impl Position {
    /// Whether `self` stands before `other` in the text.
    pub open spec fn precedes(self, other: Position) -> bool {
        self.line < other.line || (self.line == other.line && self.character < other.character)
    }

    /// Whether `self` stands before `other` in the text.
    pub fn is_before(self, other: Position) -> (r: bool)
        ensures
            r == self.precedes(other),
    {
        self.line < other.line || (self.line == other.line && self.character < other.character)
    }
}

/// A stretch of text between two positions.
#[derive(Clone, Copy, Debug, PartialEq, Eq, Structural)]
pub struct Range {
    pub start: Position,
    pub end: Position,
}

impl Range {
    /// Whether `position` is in the range, its ends included.
    pub open spec fn holds(self, position: Position) -> bool {
        !position.precedes(self.start) && !self.end.precedes(position)
    }

    /// Whether `position` is in the range and at neither end.
    pub open spec fn holds_inside(self, position: Position) -> bool {
        self.start.precedes(position) && position.precedes(self.end)
    }

    /// Whether `position` is in the range, its ends included.
    pub fn contains(self, position: Position) -> (r: bool)
        ensures
            r == self.holds(position),
    {
        !position.is_before(self.start) && !self.end.is_before(position)
    }

    /// Whether `position` is in the range and at neither end.
    pub fn contains_exclusive(self, position: Position) -> (r: bool)
        ensures
            r == self.holds_inside(position),
    {
        self.start.is_before(position) && position.is_before(self.end)
    }

    /// The empty range at `position`.
    pub fn at(position: Position) -> (r: Range)
        ensures
            r == (Range { start: position, end: position }),
    {
        Range { start: position, end: position }
    }
}

/// A word of an argument.
#[derive(Debug, PartialEq, Eq)]
pub struct LatexWord {
    pub text: String,
    pub range: Range,
}

/// An argument of a command: a group in braces. `closed` says whether the
/// closing brace is there; the range includes the braces.
#[derive(Debug, PartialEq, Eq)]
pub struct LatexGroup {
    pub range: Range,
    pub closed: bool,
    pub words: Vec<LatexWord>,
}

/// A command with its arguments. The name includes the backslash.
#[derive(Debug, PartialEq, Eq)]
pub struct LatexCommand {
    pub name: String,
    pub name_range: Range,
    pub args: Vec<LatexGroup>,
}

/// A word as contracts see it.
pub struct WordView {
    pub text: Seq<char>,
    pub range: Range,
}

impl View for LatexWord {
    type V = WordView;

    open spec fn view(&self) -> WordView {
        WordView { text: self.text@, range: self.range }
    }
}

/// An argument as contracts see it.
pub struct GroupView {
    pub range: Range,
    pub closed: bool,
    pub words: Seq<WordView>,
}

/// A command as contracts see it.
pub struct CommandView {
    pub name: Seq<char>,
    pub name_range: Range,
    pub args: Seq<GroupView>,
}

impl View for LatexGroup {
    type V = GroupView;

    open spec fn view(&self) -> GroupView {
        GroupView {
            range: self.range,
            closed: self.closed,
            words: Seq::new(self.words@.len(), |i: int| self.words@[i]@),
        }
    }
}

impl View for LatexCommand {
    type V = CommandView;

    open spec fn view(&self) -> CommandView {
        CommandView {
            name: self.name@,
            name_range: self.name_range,
            args: Seq::new(self.args@.len(), |i: int| self.args@[i]@),
        }
    }
}

/// The views of a sequence of commands.
pub open spec fn command_views(commands: Seq<LatexCommand>) -> Seq<CommandView> {
    Seq::new(commands.len(), |i: int| commands[i]@)
}

/// Whether the cursor at `position` is in the argument `group`: between its
/// braces, or after the opening brace of an argument that is not closed.
pub open spec fn in_group(group: GroupView, position: Position) -> bool {
    if group.closed {
        group.range.holds_inside(position)
    } else {
        group.range.start.precedes(position) && !group.range.end.precedes(position)
    }
}

/// Whether the cursor at `position` is in the argument number `index` of
/// `command`, and the command has the name `name`.
pub open spec fn in_argument(
    command: CommandView,
    name: Seq<char>,
    index: int,
    position: Position,
) -> bool {
    &&& command.name == name
    &&& 0 <= index < command.args.len()
    &&& in_group(command.args[index], position)
}

/// The range that a completion in `group` replaces: that of the first word
/// that holds the cursor, or the empty range at the cursor.
pub open spec fn word_range(group: GroupView, position: Position) -> Range {
    if exists|w: int| first_holding(group.words, position, w) {
        group.words[choose|w: int| first_holding(group.words, position, w)].range
    } else {
        Range { start: position, end: position }
    }
}

/// Whether `w` is the index of the first of `words` that holds `position`.
pub open spec fn first_holding(words: Seq<WordView>, position: Position, w: int) -> bool {
    &&& 0 <= w < words.len()
    &&& words[w].range.holds(position)
    &&& forall|v: int| 0 <= v < w ==> !(#[trigger] words[v]).range.holds(position)
}

/// Whether `i` is the index of the first of `commands` in whose argument
/// number `index` the cursor is, with the name `name`.
pub open spec fn first_in_argument(
    commands: Seq<CommandView>,
    name: Seq<char>,
    index: int,
    position: Position,
    i: int,
) -> bool {
    &&& 0 <= i < commands.len()
    &&& in_argument(commands[i], name, index, position)
    &&& forall|j: int| 0 <= j < i ==> !in_argument(#[trigger] commands[j], name, index, position)
}

/// The range that a completion of the argument number `index` of the
/// command `name` replaces, where the cursor is in such an argument.
pub open spec fn argument_site(
    commands: Seq<CommandView>,
    name: Seq<char>,
    index: int,
    position: Position,
) -> Option<Range> {
    if exists|i: int| first_in_argument(commands, name, index, position, i) {
        let i = choose|i: int| first_in_argument(commands, name, index, position, i);
        Some(word_range(commands[i].args[index], position))
    } else {
        None
    }
}

/// The name of a command without its backslash.
pub open spec fn short_name_range(name_range: Range) -> Range {
    Range {
        start: Position {
            line: name_range.start.line,
            character: if name_range.start.character < u32::MAX {
                (name_range.start.character + 1) as u32
            } else {
                name_range.start.character
            },
        },
        end: name_range.end,
    }
}

/// Whether the cursor at `position` is on the name of `command` and not
/// before its backslash.
pub open spec fn on_name(command: CommandView, position: Position) -> bool {
    command.name_range.holds(position) && command.name_range.start.character != position.character
}

/// Whether `i` is the index of the first of `commands` on whose name the
/// cursor is.
pub open spec fn first_on_name(commands: Seq<CommandView>, position: Position, i: int) -> bool {
    &&& 0 <= i < commands.len()
    &&& on_name(commands[i], position)
    &&& forall|j: int| 0 <= j < i ==> !on_name(#[trigger] commands[j], position)
}

/// The range that a completion of a command name replaces, where the cursor
/// is on the name of a command.
pub open spec fn command_site(commands: Seq<CommandView>, position: Position) -> Option<Range> {
    if exists|i: int| first_on_name(commands, position, i) {
        Some(
            short_name_range(
                commands[choose|i: int| first_on_name(commands, position, i)].name_range,
            ),
        )
    } else {
        None
    }
}

/// The range that a completion in `group` replaces.
fn find_word_range(group: &LatexGroup, position: Position) -> (r: Range)
    ensures
        r == word_range(group@, position),
{
    let mut w: usize = 0;
    while w < group.words.len()
        invariant
            w <= group.words@.len(),
            forall|v: int| 0 <= v < w ==> !(#[trigger] group@.words[v]).range.holds(position),
        decreases group.words@.len() - w,
    {
        if group.words[w].range.contains(position) {
            proof {
                assert(first_holding(group@.words, position, w as int));
                let other = choose|x: int| first_holding(group@.words, position, x);
                assert(first_holding(group@.words, position, other));
                if other < w {
                    assert(!group@.words[other].range.holds(position));
                } else if w < other {
                    assert(!group@.words[w as int].range.holds(position));
                }
            }
            return group.words[w].range;
        }
        w += 1;
    }
    Range::at(position)
}

/// Whether the cursor is in `group`.
fn cursor_in_group(group: &LatexGroup, position: Position) -> (r: bool)
    ensures
        r == in_group(group@, position),
{
    if group.closed {
        group.range.contains_exclusive(position)
    } else {
        group.range.start.is_before(position) && !group.range.end.is_before(position)
    }
}

/// The range that a completion of the argument number `index` of the command
/// `name` replaces, where the cursor is in such an argument: the first such
/// command in the order of the text decides.
pub fn argument(commands: &Vec<LatexCommand>, name: &str, index: usize, position: Position) -> (r:
    Option<Range>)
    ensures
        r == argument_site(command_views(commands@), name@, index as int, position),
{
    let ghost views = command_views(commands@);
    let mut i: usize = 0;
    while i < commands.len()
        invariant
            i <= commands@.len(),
            views == command_views(commands@),
            forall|j: int|
                0 <= j < i ==> !in_argument(#[trigger] views[j], name@, index as int, position),
        decreases commands@.len() - i,
    {
        let command = &commands[i];
        assert(views[i as int] == command@);
        if crate::text::str_is(command.name.as_str(), name) && index < command.args.len() {
            assert(command@.args[index as int] == command.args@[index as int]@);
            if cursor_in_group(&command.args[index], position) {
                proof {
                    assert(first_in_argument(views, name@, index as int, position, i as int));
                    let other = choose|x: int|
                        first_in_argument(views, name@, index as int, position, x);
                    assert(first_in_argument(views, name@, index as int, position, other));
                    if other < i {
                        assert(!in_argument(views[other], name@, index as int, position));
                    } else if i < other {
                        assert(!in_argument(views[i as int], name@, index as int, position));
                    }
                }
                return Some(find_word_range(&command.args[index], position));
            }
        }
        i += 1;
    }
    None
}

/// The range that a completion of a command name replaces, where the cursor
/// is on the name of a command: the first such command in the order of the
/// text decides.
pub fn command(commands: &Vec<LatexCommand>, position: Position) -> (r: Option<Range>)
    ensures
        r == command_site(command_views(commands@), position),
{
    let ghost views = command_views(commands@);
    let mut i: usize = 0;
    while i < commands.len()
        invariant
            i <= commands@.len(),
            views == command_views(commands@),
            forall|j: int| 0 <= j < i ==> !on_name(#[trigger] views[j], position),
        decreases commands@.len() - i,
    {
        let command = &commands[i];
        assert(views[i as int] == command@);
        if command.name_range.contains(position) && command.name_range.start.character
            != position.character {
            proof {
                assert(first_on_name(views, position, i as int));
                let other = choose|x: int| first_on_name(views, position, x);
                assert(first_on_name(views, position, other));
                if other < i {
                    assert(!on_name(views[other], position));
                } else if i < other {
                    assert(!on_name(views[i as int], position));
                }
            }
            let start = command.name_range.start;
            let character = if start.character < u32::MAX {
                start.character + 1
            } else {
                start.character
            };
            return Some(
                Range {
                    start: Position { line: start.line, character },
                    end: command.name_range.end,
                },
            );
        }
        i += 1;
    }
    None
}

} // verus!
