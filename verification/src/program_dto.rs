//! Programs as they are written down: cards refer to each other by name.
//!
//! Reading a written program resolves every name to an index, and refuses
//! the program, naming everything that is wrong with it, if that cannot be
//! done.

use crate::program::{closed as closed_cards, Card, CardView, Direction, Instruction, Program, ProgramView};
use crate::text;
use crate::text::joined;
use vstd::prelude::*;
use vstd::std_specs::convert::FromSpecImpl;
use vstd::std_specs::convert::TryFromSpecImpl;
use vstd::string::StringExecFns;

verus! {

broadcast use vstd::string::group_string_axioms;

/// A direction as it is written down.
#[derive(PartialEq, Eq, Debug, Copy, Clone)]
pub enum DirectionDto {
    Left,
    Right,
}

/// An instruction as it is written down: the next card by its name.
#[derive(PartialEq, Eq, Debug)]
pub struct InstructionDto {
    pub write_symbol: Option<bool>,
    pub move_direction: Option<DirectionDto>,
    pub next_card: Option<String>,
}

/// A card as it is written down.
#[derive(PartialEq, Eq, Debug)]
pub struct CardDto {
    pub name: String,
    pub instruction_on: InstructionDto,
    pub instruction_off: InstructionDto,
}

/// A program as it is written down: the initial card by its name.
#[derive(PartialEq, Eq, Debug)]
pub struct ProgramDto {
    pub name: String,
    pub description: String,
    pub initial_card: String,
    pub cards: Vec<CardDto>,
}

/// One thing that is wrong with a written program.
#[derive(PartialEq, Eq, Debug)]
pub enum Problem {
    /// The program has no name.
    EmptyName,
    /// These names are each given to more than one card.
    DuplicateCardNames { names: Vec<String> },
    /// No card has the name given for the initial card.
    InitialCardNotFound { name: String },
    /// No card has the name given for an instruction's next card.
    CardNotFound { name: String },
}

/// Everything that is wrong with a written program; at least one thing.
#[derive(PartialEq, Eq, Debug)]
pub struct ProgramError {
    pub problems: Vec<Problem>,
}

/// A written instruction as a mathematical value.
pub struct InstructionDtoView {
    pub write_symbol: Option<bool>,
    pub move_direction: Option<Direction>,
    pub next_card: Option<Seq<char>>,
}

/// A written card as a mathematical value.
pub struct CardDtoView {
    pub name: Seq<char>,
    pub instruction_on: InstructionDtoView,
    pub instruction_off: InstructionDtoView,
}

/// A written program as a mathematical value.
pub struct ProgramDtoView {
    pub name: Seq<char>,
    pub description: Seq<char>,
    pub initial_card: Seq<char>,
    pub cards: Seq<CardDtoView>,
}

/// A problem as a mathematical value.
pub enum ProblemView {
    EmptyName,
    DuplicateCardNames { names: Seq<Seq<char>> },
    InitialCardNotFound { name: Seq<char> },
    CardNotFound { name: Seq<char> },
}

/// The direction that a written direction means.
pub open spec fn direction_of(direction: DirectionDto) -> Direction {
    match direction {
        DirectionDto::Left => Direction::Left,
        DirectionDto::Right => Direction::Right,
    }
}

/// A direction written down.
pub open spec fn direction_written(direction: Direction) -> DirectionDto {
    match direction {
        Direction::Left => DirectionDto::Left,
        Direction::Right => DirectionDto::Right,
    }
}

impl View for InstructionDto {
    type V = InstructionDtoView;

    open spec fn view(&self) -> InstructionDtoView {
        InstructionDtoView {
            write_symbol: self.write_symbol,
            move_direction: match self.move_direction {
                Some(direction) => Some(direction_of(direction)),
                None => None,
            },
            next_card: match self.next_card {
                Some(name) => Some(name@),
                None => None,
            },
        }
    }
}

impl View for CardDto {
    type V = CardDtoView;

    open spec fn view(&self) -> CardDtoView {
        CardDtoView {
            name: self.name@,
            instruction_on: self.instruction_on@,
            instruction_off: self.instruction_off@,
        }
    }
}

impl View for ProgramDto {
    type V = ProgramDtoView;

    open spec fn view(&self) -> ProgramDtoView {
        ProgramDtoView {
            name: self.name@,
            description: self.description@,
            initial_card: self.initial_card@,
            cards: self.cards@.map_values(|card: CardDto| card@),
        }
    }
}

impl View for Problem {
    type V = ProblemView;

    open spec fn view(&self) -> ProblemView {
        match self {
            Problem::EmptyName => ProblemView::EmptyName,
            Problem::DuplicateCardNames { names } => ProblemView::DuplicateCardNames {
                names: names.deep_view(),
            },
            Problem::InitialCardNotFound { name } => ProblemView::InitialCardNotFound {
                name: name@,
            },
            Problem::CardNotFound { name } => ProblemView::CardNotFound { name: name@ },
        }
    }
}

impl View for ProgramError {
    type V = Seq<ProblemView>;

    open spec fn view(&self) -> Seq<ProblemView> {
        self.problems@.map_values(|problem: Problem| problem@)
    }
}

/// The index of the first of `names`, from `from` on, that is `name`; the
/// number of names if none is.
pub open spec fn lookup_from(names: Seq<Seq<char>>, name: Seq<char>, from: int) -> int
    decreases names.len() - from,
{
    if from < 0 || from >= names.len() {
        names.len() as int
    } else if names[from] == name {
        from
    } else {
        lookup_from(names, name, from + 1)
    }
}

/// The index of the first of `names` that is `name`; the number of names if
/// none is.
pub open spec fn lookup(names: Seq<Seq<char>>, name: Seq<char>) -> int {
    lookup_from(names, name, 0)
}

/// Whether `name` is one of `names`.
pub open spec fn known(names: Seq<Seq<char>>, name: Seq<char>) -> bool {
    lookup(names, name) < names.len()
}

/// The names that occur more than once, each once, in the order in which
/// they are first repeated.
pub open spec fn duplicates(names: Seq<Seq<char>>) -> Seq<Seq<char>>
    decreases names.len(),
{
    if names.len() == 0 {
        Seq::empty()
    } else {
        let before = names.drop_last();
        let found = duplicates(before);
        if known(before, names.last()) && !known(found, names.last()) {
            found.push(names.last())
        } else {
            found
        }
    }
}

/// The names of the cards, in order.
pub open spec fn card_names(cards: Seq<CardDtoView>) -> Seq<Seq<char>> {
    cards.map_values(|card: CardDtoView| card.name)
}

impl InstructionDtoView {
    /// What is wrong with the instruction among cards of these names:
    /// nothing, or that its next card is none of them.
    pub open spec fn dangling(self, names: Seq<Seq<char>>) -> Seq<ProblemView> {
        match self.next_card {
            Some(name) => if known(names, name) {
                Seq::empty()
            } else {
                seq![ProblemView::CardNotFound { name }]
            },
            None => Seq::empty(),
        }
    }

    /// The instruction with its next card as an index into `names`.
    pub open spec fn resolved(self, names: Seq<Seq<char>>) -> Instruction {
        Instruction {
            write_symbol: self.write_symbol,
            move_direction: self.move_direction,
            next_card: match self.next_card {
                Some(name) => Some(lookup(names, name) as usize),
                None => None,
            },
        }
    }
}

impl CardDtoView {
    /// What is wrong with the card's two instructions, that for an on bit
    /// first.
    pub open spec fn dangling(self, names: Seq<Seq<char>>) -> Seq<ProblemView> {
        self.instruction_on.dangling(names) + self.instruction_off.dangling(names)
    }

    /// The card with its next cards as indices into `names`.
    pub open spec fn resolved(self, names: Seq<Seq<char>>) -> CardView {
        CardView {
            name: self.name,
            tape_on: self.instruction_on.resolved(names),
            tape_off: self.instruction_off.resolved(names),
        }
    }
}

/// What is wrong with the instructions of the cards, card by card.
pub open spec fn dangling(cards: Seq<CardDtoView>, names: Seq<Seq<char>>) -> Seq<ProblemView>
    decreases cards.len(),
{
    if cards.len() == 0 {
        Seq::empty()
    } else {
        dangling(cards.drop_last(), names) + cards.last().dangling(names)
    }
}

impl ProgramDtoView {
    /// The names of the program's cards, in order.
    pub open spec fn names(self) -> Seq<Seq<char>> {
        card_names(self.cards)
    }

    /// Everything that is wrong with the program, in this order: that it has
    /// no name; the names that several cards share; that the initial card is
    /// none of the cards; and each next card that is none of the cards.
    pub open spec fn problems(self) -> Seq<ProblemView> {
        let nameless = if self.name.len() == 0 {
            seq![ProblemView::EmptyName]
        } else {
            Seq::empty()
        };
        let shared = if duplicates(self.names()).len() > 0 {
            seq![ProblemView::DuplicateCardNames { names: duplicates(self.names()) }]
        } else {
            Seq::empty()
        };
        let lost = if known(self.names(), self.initial_card) {
            Seq::empty()
        } else {
            seq![ProblemView::InitialCardNotFound { name: self.initial_card }]
        };
        nameless + shared + lost + dangling(self.cards, self.names())
    }

    /// The program that is meant: every name replaced by the index of the
    /// card of that name.
    pub open spec fn resolved(self) -> ProgramView {
        ProgramView {
            name: self.name,
            description: self.description,
            initial_card: lookup(self.names(), self.initial_card) as usize,
            cards: self.cards.map_values(|card: CardDtoView| card.resolved(self.names())),
        }
    }
}

impl ProblemView {
    /// The problem in words.
    pub open spec fn message(self) -> Seq<char> {
        match self {
            ProblemView::EmptyName => "Name cannot be empty"@,
            ProblemView::DuplicateCardNames { names } => "Duplicate card names: "@ + joined(
                names,
                ", "@,
            ),
            ProblemView::InitialCardNotFound { name } => "Initial card not found: "@ + name,
            ProblemView::CardNotFound { name } => "Card does not exist: "@ + name,
        }
    }
}

/// All the problems in words, one after the other.
pub open spec fn error_message(problems: Seq<ProblemView>) -> Seq<char> {
    joined(problems.map_values(|problem: ProblemView| problem.message()), "; "@)
}

/// The problems of a list as mathematical values.
pub open spec fn problem_views(problems: Seq<Problem>) -> Seq<ProblemView> {
    problems.map_values(|problem: Problem| problem@)
}

/// An instruction written down among cards of these names: the next card by
/// its name.
pub open spec fn instruction_written(
    instruction: Instruction,
    names: Seq<Seq<char>>,
) -> InstructionDtoView {
    InstructionDtoView {
        write_symbol: instruction.write_symbol,
        move_direction: instruction.move_direction,
        next_card: match instruction.next_card {
            Some(index) => Some(names[index as int]),
            None => None,
        },
    }
}

/// A card written down among cards of these names.
pub open spec fn card_written(card: CardView, names: Seq<Seq<char>>) -> CardDtoView {
    CardDtoView {
        name: card.name,
        instruction_on: instruction_written(card.tape_on, names),
        instruction_off: instruction_written(card.tape_off, names),
    }
}

/// The names of the cards, in order.
pub open spec fn names_of(cards: Seq<CardView>) -> Seq<Seq<char>> {
    cards.map_values(|card: CardView| card.name)
}

/// A program written down: every index replaced by the name of the card at
/// that index.
pub open spec fn program_written(program: ProgramView) -> ProgramDtoView {
    ProgramDtoView {
        name: program.name,
        description: program.description,
        initial_card: program.cards[program.initial_card as int].name,
        cards: program.cards.map_values(
            |card: CardView| card_written(card, names_of(program.cards)),
        ),
    }
}

/// Whether `result` is what reading `dto` gives: the program that is meant,
/// if nothing is wrong with what is written, and else everything that is
/// wrong with it.
pub open spec fn reads(dto: ProgramDto, result: Result<Program, ProgramError>) -> bool {
    match result {
        Ok(program) => {
            &&& dto@.problems().len() == 0
            &&& program@ == dto@.resolved()
            &&& program@.valid()
        },
        Err(error) => {
            &&& error@ == dto@.problems()
            &&& error@.len() > 0
        },
    }
}

/// What `lookup_from` finds: no name between `from` and the result is
/// `name`, and the result, if it is an index, is.
pub proof fn lemma_lookup_from(names: Seq<Seq<char>>, name: Seq<char>, from: int)
    requires
        0 <= from <= names.len(),
    ensures
        from <= lookup_from(names, name, from) <= names.len(),
        forall|j: int| from <= j < lookup_from(names, name, from) ==> names[j] != name,
        lookup_from(names, name, from) < names.len() ==> names[lookup_from(names, name, from)]
            == name,
    decreases names.len() - from,
{
    if from < names.len() && names[from] != name {
        lemma_lookup_from(names, name, from + 1);
    }
}

/// A name is known exactly if it is one of the names.
pub proof fn lemma_known(names: Seq<Seq<char>>, name: Seq<char>)
    ensures
        known(names, name) == names.contains(name),
{
    lemma_lookup_from(names, name, 0);
}

/// Among names that are all different, each is found at its own index.
pub proof fn lemma_lookup_own(names: Seq<Seq<char>>, index: int)
    requires
        names.no_duplicates(),
        0 <= index < names.len(),
    ensures
        lookup(names, names[index]) == index,
{
    lemma_lookup_from(names, names[index], 0);
}

/// A name is among the duplicates exactly if it occurs at two places, and no
/// name is among the duplicates twice.
pub proof fn lemma_duplicates(names: Seq<Seq<char>>)
    ensures
        forall|name: Seq<char>|
            duplicates(names).contains(name) <==> exists|i: int, j: int|
                0 <= i < j < names.len() && names[i] == name && names[j] == name,
        duplicates(names).no_duplicates(),
        names.no_duplicates() <==> duplicates(names).len() == 0,
    decreases names.len(),
{
    if names.len() > 0 {
        let before = names.drop_last();
        let last = names.last();
        let found = duplicates(before);
        lemma_duplicates(before);
        lemma_known(before, last);
        lemma_known(found, last);
        assert forall|name: Seq<char>|
            duplicates(names).contains(name) <==> exists|i: int, j: int|
                0 <= i < j < names.len() && names[i] == name && names[j] == name by {
            if exists|i: int, j: int|
                0 <= i < j < names.len() && names[i] == name && names[j] == name {
                let (i, j) = choose|i: int, j: int|
                    0 <= i < j < names.len() && names[i] == name && names[j] == name;
                if j < before.len() {
                    assert(before[i] == name && before[j] == name);
                    assert(found.contains(name));
                    if duplicates(names) != found {
                        let k = choose|k: int| 0 <= k < found.len() && found[k] == name;
                        assert(duplicates(names)[k] == name);
                    }
                } else {
                    assert(before[i] == last);
                    if !found.contains(last) {
                        assert(duplicates(names)[found.len() as int] == last);
                    }
                }
            }
        }
        if duplicates(names).len() == 0 {
            assert forall|i: int, j: int|
                0 <= i < names.len() && 0 <= j < names.len() && i != j implies names[i]
                != names[j] by {
                if names[i] == names[j] {
                    if i < j {
                        assert(duplicates(names).contains(names[i]));
                    } else {
                        assert(duplicates(names).contains(names[j]));
                    }
                }
            }
        }
    }
}

/// Among cards of which every next card is one of them, nothing is wrong
/// with the instructions written down.
proof fn lemma_written_resolves(cards: Seq<CardView>, count: int)
    requires
        closed_cards(cards),
        names_of(cards).no_duplicates(),
        0 <= count <= cards.len(),
    ensures
        dangling(
            cards.map_values(|card: CardView| card_written(card, names_of(cards))).take(count),
            names_of(cards),
        ).len() == 0,
        forall|i: int|
            0 <= i < cards.len() ==> card_written(#[trigger] cards[i], names_of(cards)).resolved(
                names_of(cards),
            ) == cards[i],
    decreases count,
{
    let names = names_of(cards);
    let written = cards.map_values(|card: CardView| card_written(card, names));
    assert forall|i: int| 0 <= i < cards.len() implies card_written(
        #[trigger] cards[i],
        names,
    ).resolved(names) == cards[i] && card_written(cards[i], names).dangling(names).len() == 0 by {
        if let Some(next) = cards[i].tape_on.next_card {
            lemma_lookup_own(names, next as int);
        }
        if let Some(next) = cards[i].tape_off.next_card {
            lemma_lookup_own(names, next as int);
        }
    }
    if count > 0 {
        lemma_written_resolves(cards, count - 1);
        assert(written.take(count).drop_last() =~= written.take(count - 1));
    }
}

/// A valid program with a name, whose cards all have different names, is
/// read back from what is written of it: nothing is wrong with what is
/// written, and it means the program.
pub proof fn lemma_program_round_trip(program: ProgramView)
    requires
        program.valid(),
        program.name.len() > 0,
        names_of(program.cards).no_duplicates(),
    ensures
        program_written(program).problems().len() == 0,
        program_written(program).resolved() == program,
{
    let written = program_written(program);
    let names = names_of(program.cards);
    assert(written.names() =~= names);
    lemma_duplicates(names);
    lemma_lookup_own(names, program.initial_card as int);
    lemma_written_resolves(program.cards, program.cards.len() as int);
    assert(written.cards.take(program.cards.len() as int) =~= written.cards);
    assert(written.resolved().cards =~= program.cards);
}

/// The index of the first of `names` that is `name`, if there is one.
pub fn find(names: &Vec<String>, name: &String) -> (found: Option<usize>)
    ensures
        match found {
            Some(index) => index == lookup(names.deep_view(), name@) && index < names.len(),
            None => !known(names.deep_view(), name@),
        },
{
    let mut i: usize = 0;
    while i < names.len()
        invariant
            i <= names.len(),
            lookup(names.deep_view(), name@) == lookup_from(names.deep_view(), name@, i as int),
        decreases names.len() - i,
    {
        if names[i] == *name {
            return Some(i);
        }
        i += 1;
    }
    None
}

/// The names that occur more than once in `items`, each once, in the order
/// in which they are first repeated.
pub fn retain_duplicates(items: Vec<String>) -> (repeated: Vec<String>)
    ensures
        repeated.deep_view() == duplicates(items.deep_view()),
{
    let mut seen: Vec<String> = Vec::new();
    let mut repeated: Vec<String> = Vec::new();
    let ghost all = items.deep_view();
    let mut i: usize = 0;
    while i < items.len()
        invariant
            i <= items.len(),
            all == items.deep_view(),
            seen.deep_view() == all.take(i as int),
            repeated.deep_view() == duplicates(all.take(i as int)),
        decreases items.len() - i,
    {
        let item = &items[i];
        proof {
            assert(all.take(i + 1).drop_last() =~= all.take(i as int));
        }
        if find(&seen, item).is_some() && find(&repeated, item).is_none() {
            repeated.push(item.clone());
        }
        seen.push(item.clone());
        i += 1;
    }
    assert(all.take(items.len() as int) =~= all);
    repeated
}

impl FromSpecImpl<DirectionDto> for Direction {
    open spec fn obeys_from_spec() -> bool {
        true
    }

    open spec fn from_spec(direction: DirectionDto) -> Direction {
        direction_of(direction)
    }
}

impl From<DirectionDto> for Direction {
    fn from(direction: DirectionDto) -> (meant: Direction) {
        match direction {
            DirectionDto::Left => Direction::Left,
            DirectionDto::Right => Direction::Right,
        }
    }
}

impl FromSpecImpl<Direction> for DirectionDto {
    open spec fn obeys_from_spec() -> bool {
        true
    }

    open spec fn from_spec(direction: Direction) -> DirectionDto {
        direction_written(direction)
    }
}

impl From<Direction> for DirectionDto {
    fn from(direction: Direction) -> (written: DirectionDto) {
        match direction {
            Direction::Left => DirectionDto::Left,
            Direction::Right => DirectionDto::Right,
        }
    }
}

impl InstructionDto {
    /// The instruction that is meant among cards of these names, or the
    /// problem that its next card is none of them.
    pub fn try_into_with_map(&self, card_names: &Vec<String>) -> (result: Result<
        Instruction,
        Problem,
    >)
        ensures
            match result {
                Ok(instruction) => {
                    &&& self@.dangling(card_names.deep_view()).len() == 0
                    &&& instruction == self@.resolved(card_names.deep_view())
                    &&& instruction.stays_within(card_names.len() as nat)
                },
                Err(problem) => self@.dangling(card_names.deep_view()) == seq![problem@],
            },
    {
        let next_card = match &self.next_card {
            Some(name) => match find(card_names, name) {
                Some(index) => Some(index),
                None => {
                    return Err(Problem::CardNotFound { name: name.clone() });
                },
            },
            None => None,
        };
        let move_direction = match self.move_direction {
            Some(direction) => Some(Direction::from(direction)),
            None => None,
        };
        Ok(Instruction { write_symbol: self.write_symbol, move_direction, next_card })
    }

    /// `instruction` written down among cards of these names.
    pub fn from_instruction(instruction: Instruction, card_names: &Vec<String>) -> (dto:
        InstructionDto)
        requires
            instruction.stays_within(card_names.len() as nat),
        ensures
            dto@ == instruction_written(instruction, card_names.deep_view()),
    {
        InstructionDto {
            write_symbol: instruction.write_symbol,
            move_direction: match instruction.move_direction {
                Some(direction) => Some(DirectionDto::from(direction)),
                None => None,
            },
            next_card: match instruction.next_card {
                Some(index) => Some(card_names[index].clone()),
                None => None,
            },
        }
    }
}

impl CardDto {
    /// The card that is meant among cards of these names, or what is wrong
    /// with its instructions.
    pub fn try_into(&self, card_names: &Vec<String>) -> (result: Result<Card, Vec<Problem>>)
        ensures
            match result {
                Ok(card) => {
                    &&& self@.dangling(card_names.deep_view()).len() == 0
                    &&& card@ == self@.resolved(card_names.deep_view())
                    &&& card@.stays_within(card_names.len() as nat)
                },
                Err(problems) => {
                    &&& problem_views(problems@) == self@.dangling(card_names.deep_view())
                    &&& problems.len() > 0
                },
            },
    {
        let on = self.instruction_on.try_into_with_map(card_names);
        let off = self.instruction_off.try_into_with_map(card_names);
        let mut problems: Vec<Problem> = Vec::new();
        match (on, off) {
            (Ok(tape_on), Ok(tape_off)) => {
                return Ok(Card { name: self.name.clone(), tape_on, tape_off });
            },
            (Err(first), Ok(_)) => {
                problems.push(first);
            },
            (Ok(_), Err(second)) => {
                problems.push(second);
            },
            (Err(first), Err(second)) => {
                problems.push(first);
                problems.push(second);
            },
        }
        Err(problems)
    }

    /// `card` written down among cards of these names.
    pub fn from_card(card: Card, card_names: &Vec<String>) -> (dto: CardDto)
        requires
            card@.stays_within(card_names.len() as nat),
        ensures
            dto@ == card_written(card@, card_names.deep_view()),
    {
        CardDto {
            name: card.name,
            instruction_on: InstructionDto::from_instruction(card.tape_on, card_names),
            instruction_off: InstructionDto::from_instruction(card.tape_off, card_names),
        }
    }
}

impl ProgramDto {
    /// `program` written down: every index replaced by the name of the card
    /// at that index.
    pub fn from(program: Program) -> (dto: ProgramDto)
        requires
            program@.valid(),
        ensures
            dto@ == program_written(program@),
    {
        let ghost cards = program@.cards;
        let mut card_names: Vec<String> = Vec::new();
        let mut i: usize = 0;
        while i < program.cards.len()
            invariant
                i <= program.cards.len(),
                card_names.deep_view() == names_of(program@.cards).take(i as int),
            decreases program.cards.len() - i,
        {
            let ghost before = card_names.deep_view();
            card_names.push(program.cards[i].name.clone());
            assert(names_of(program@.cards).take(i + 1) =~= before.push(
                program.cards[i as int].name@,
            ));
            i += 1;
        }
        let initial_card = card_names[program.initial_card].clone();
        assert(initial_card@ == card_names.deep_view()[program.initial_card as int]);
        let Program { name, description, initial_card: _, cards: program_cards } = program;
        let ghost all = program_cards@;
        let mut written: Vec<CardDto> = Vec::new();
        for card in it: program_cards
            invariant
                it.seq() == all,
                cards == all.map_values(|card: Card| card@),
                closed_cards(cards),
                card_names.deep_view() == names_of(cards),
                card_names.len() == cards.len(),
                written.len() == it.index(),
                forall|j: int|
                    0 <= j < it.index() ==> (#[trigger] written[j])@ == card_written(
                        cards[j],
                        names_of(cards),
                    ),
        {
            assert(card@ == cards[it.index()]);
            written.push(CardDto::from_card(card, &card_names));
        }
        let dto = ProgramDto { name, description, initial_card, cards: written };
        assert(dto@.cards =~= program_written(program@).cards);
        dto
    }
}

impl Problem {
    /// The problem in words.
    pub fn message(&self) -> (text: String)
        ensures
            text@ == self@.message(),
    {
        match self {
            Problem::EmptyName => String::from_str("Name cannot be empty"),
            Problem::DuplicateCardNames { names } => String::from_str(
                "Duplicate card names: ",
            ).concat(text::join(names, ", ").as_str()),
            Problem::InitialCardNotFound { name } => String::from_str(
                "Initial card not found: ",
            ).concat(name.as_str()),
            Problem::CardNotFound { name } => String::from_str("Card does not exist: ").concat(
                name.as_str(),
            ),
        }
    }
}

impl ProgramError {
    /// All the problems in words, one after the other.
    pub fn message(&self) -> (text: String)
        ensures
            text@ == error_message(self@),
    {
        let mut messages: Vec<String> = Vec::new();
        let mut i: usize = 0;
        while i < self.problems.len()
            invariant
                i <= self.problems.len(),
                messages.deep_view() == self@.map_values(
                    |problem: ProblemView| problem.message(),
                ).take(i as int),
            decreases self.problems.len() - i,
        {
            let ghost before = messages.deep_view();
            let message = self.problems[i].message();
            messages.push(message);
            assert(self@.map_values(|problem: ProblemView| problem.message()).take(i + 1)
                =~= before.push(self@[i as int].message()));
            i += 1;
        }
        assert(self@.map_values(|problem: ProblemView| problem.message()).take(
            self.problems.len() as int,
        ) =~= self@.map_values(|problem: ProblemView| problem.message()));
        text::join(&messages, "; ")
    }
}

impl TryFromSpecImpl<ProgramDto> for Program {
    open spec fn obeys_try_from_spec() -> bool {
        false
    }

    open spec fn try_from_spec(dto: ProgramDto) -> Result<Program, ProgramError> {
        choose|result: Result<Program, ProgramError>| reads(dto, result)
    }
}

impl TryFrom<ProgramDto> for Program {
    type Error = ProgramError;

    /// Reads a written program: resolves every card name to an index. Where
    /// the program has no name, several cards share a name, or a name that
    /// is referred to belongs to no card, no program is made, and the error
    /// names every such thing.
    fn try_from(dto: ProgramDto) -> (result: Result<Program, ProgramError>)
        ensures
            reads(dto, result),
    {
        let ghost written = dto@;
        let mut problems: Vec<Problem> = Vec::new();
        if dto.name.as_str().unicode_len() == 0 {
            problems.push(Problem::EmptyName);
        }
        let mut card_names: Vec<String> = Vec::new();
        let mut i: usize = 0;
        while i < dto.cards.len()
            invariant
                i <= dto.cards.len(),
                card_names.deep_view() == written.names().take(i as int),
                written == dto@,
            decreases dto.cards.len() - i,
        {
            let ghost before = card_names.deep_view();
            card_names.push(dto.cards[i].name.clone());
            assert(written.names().take(i + 1) =~= before.push(dto.cards[i as int].name@));
            i += 1;
        }
        let ghost names = card_names.deep_view();

        let repeated = retain_duplicates(card_names.clone());
        if repeated.len() > 0 {
            problems.push(Problem::DuplicateCardNames { names: repeated });
        }

        let initial_card = match find(&card_names, &dto.initial_card) {
            Some(index) => index,
            None => {
                problems.push(Problem::InitialCardNotFound { name: dto.initial_card.clone() });
                0
            },
        };
        let ghost lost = problem_views(problems@);

        let mut cards: Vec<Card> = Vec::new();
        let mut j: usize = 0;
        while j < dto.cards.len()
            invariant
                j <= dto.cards.len(),
                written == dto@,
                names == card_names.deep_view(),
                names == written.names(),
                card_names.len() == dto.cards.len(),
                problem_views(problems@) == lost + dangling(written.cards.take(j as int), names),
                dangling(written.cards.take(j as int), names).len() == 0 ==> {
                    &&& cards.len() == j
                    &&& forall|c: int|
                        0 <= c < j ==> {
                            &&& (#[trigger] cards[c])@ == written.cards[c].resolved(names)
                            &&& cards[c]@.stays_within(names.len())
                        }
                },
            decreases dto.cards.len() - j,
        {
            let ghost before = problem_views(problems@);
            let ghost sofar = dangling(written.cards.take(j as int), names);
            proof {
                assert(written.cards.take(j + 1).drop_last() =~= written.cards.take(j as int));
            }
            let card: &CardDto = &dto.cards[j];
            match card.try_into(&card_names) {
                Ok(card) => {
                    cards.push(card);
                },
                Err(mut found) => {
                    let ghost more = problem_views(found@);
                    problems.append(&mut found);
                    assert(before + more =~= lost + (sofar + more));
                },
            }
            j += 1;
        }
        assert(written.cards.take(dto.cards.len() as int) =~= written.cards);
        assert(problem_views(problems@) =~= written.problems());
        if problems.len() > 0 {
            Err(ProgramError { problems })
        } else {
            let program = Program {
                name: dto.name,
                description: dto.description,
                initial_card,
                cards,
            };
            assert(program@.cards =~= written.resolved().cards);
            Ok(program)
        }
    }
}

} // verus!
