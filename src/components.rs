//! Component kinds and component data.
//!
//! The set of component kinds is closed: every kind is a variant of
//! [`ComponentType`], and a stored component of any kind is a value of
//! [`AnyComponent`]. Typed access goes through the [`Component`] trait, which
//! each concrete component type implements.
use vstd::prelude::*;

use crate::entities::Entity;

verus! {

/// Number of distinct component kinds; the store keeps one table per kind.
pub const NUM_COMPONENT_TYPES: usize = 28;

/// The tag that identifies a component kind.
#[derive(Clone, Copy, Debug, PartialEq, Eq, Hash, Structural)]
pub enum ComponentType {
    Position,
    Input,
    Timed,
    Render,
    Collidable,
    Walk,
    GameTime,
    Health,
    Damage,
    Name,
    Player,
    Log,
    Event,
    RandomWalkAi,
    Energy,
    Speed,
    Pickup,
    Item,
    Consumable,
    Inventory,
    Turn,
    Prototype,
    Attributes,
    Ownable,
    ActionQueue,
    TestComponent,
    KeyboardController,
    EventQueue,
}

/// The kind whose table sits at position `i` of the store.
pub open spec fn kind_at(i: int) -> ComponentType {
    if i == 0 { ComponentType::Position }
    else if i == 1 { ComponentType::Input }
    else if i == 2 { ComponentType::Timed }
    else if i == 3 { ComponentType::Render }
    else if i == 4 { ComponentType::Collidable }
    else if i == 5 { ComponentType::Walk }
    else if i == 6 { ComponentType::GameTime }
    else if i == 7 { ComponentType::Health }
    else if i == 8 { ComponentType::Damage }
    else if i == 9 { ComponentType::Name }
    else if i == 10 { ComponentType::Player }
    else if i == 11 { ComponentType::Log }
    else if i == 12 { ComponentType::Event }
    else if i == 13 { ComponentType::RandomWalkAi }
    else if i == 14 { ComponentType::Energy }
    else if i == 15 { ComponentType::Speed }
    else if i == 16 { ComponentType::Pickup }
    else if i == 17 { ComponentType::Item }
    else if i == 18 { ComponentType::Consumable }
    else if i == 19 { ComponentType::Inventory }
    else if i == 20 { ComponentType::Turn }
    else if i == 21 { ComponentType::Prototype }
    else if i == 22 { ComponentType::Attributes }
    else if i == 23 { ComponentType::Ownable }
    else if i == 24 { ComponentType::ActionQueue }
    else if i == 25 { ComponentType::TestComponent }
    else if i == 26 { ComponentType::KeyboardController }
    else { ComponentType::EventQueue }
}

impl ComponentType {
    /// Position of this kind's table in the store.
    pub open spec fn table_index(self) -> int {
        match self {
            ComponentType::Position => 0,
            ComponentType::Input => 1,
            ComponentType::Timed => 2,
            ComponentType::Render => 3,
            ComponentType::Collidable => 4,
            ComponentType::Walk => 5,
            ComponentType::GameTime => 6,
            ComponentType::Health => 7,
            ComponentType::Damage => 8,
            ComponentType::Name => 9,
            ComponentType::Player => 10,
            ComponentType::Log => 11,
            ComponentType::Event => 12,
            ComponentType::RandomWalkAi => 13,
            ComponentType::Energy => 14,
            ComponentType::Speed => 15,
            ComponentType::Pickup => 16,
            ComponentType::Item => 17,
            ComponentType::Consumable => 18,
            ComponentType::Inventory => 19,
            ComponentType::Turn => 20,
            ComponentType::Prototype => 21,
            ComponentType::Attributes => 22,
            ComponentType::Ownable => 23,
            ComponentType::ActionQueue => 24,
            ComponentType::TestComponent => 25,
            ComponentType::KeyboardController => 26,
            ComponentType::EventQueue => 27,
        }
    }

    pub fn index(&self) -> (r: usize)
        ensures
            r as int == self.table_index(),
            r < NUM_COMPONENT_TYPES,
    {
        match self {
            ComponentType::Position => 0,
            ComponentType::Input => 1,
            ComponentType::Timed => 2,
            ComponentType::Render => 3,
            ComponentType::Collidable => 4,
            ComponentType::Walk => 5,
            ComponentType::GameTime => 6,
            ComponentType::Health => 7,
            ComponentType::Damage => 8,
            ComponentType::Name => 9,
            ComponentType::Player => 10,
            ComponentType::Log => 11,
            ComponentType::Event => 12,
            ComponentType::RandomWalkAi => 13,
            ComponentType::Energy => 14,
            ComponentType::Speed => 15,
            ComponentType::Pickup => 16,
            ComponentType::Item => 17,
            ComponentType::Consumable => 18,
            ComponentType::Inventory => 19,
            ComponentType::Turn => 20,
            ComponentType::Prototype => 21,
            ComponentType::Attributes => 22,
            ComponentType::Ownable => 23,
            ComponentType::ActionQueue => 24,
            ComponentType::TestComponent => 25,
            ComponentType::KeyboardController => 26,
            ComponentType::EventQueue => 27,
        }
    }
}

/// Every kind has its own table position, and positions map back to kinds.
pub proof fn lemma_table_index(k: ComponentType)
    ensures
        0 <= k.table_index() < NUM_COMPONENT_TYPES,
        kind_at(k.table_index()) == k,
{
}

/// Distinct kinds use distinct tables.
pub proof fn lemma_table_index_injective(a: ComponentType, b: ComponentType)
    ensures
        a.table_index() == b.table_index() ==> a == b,
{
    lemma_table_index(a);
    lemma_table_index(b);
}

/// Table positions cover every kind exactly once.
pub proof fn lemma_kind_at(i: int)
    requires
        0 <= i < NUM_COMPONENT_TYPES,
    ensures
        kind_at(i).table_index() == i,
{
}

/// A grid position.
#[derive(Clone, Copy, Debug, PartialEq, Eq, Structural)]
pub struct Position {
    pub x: i32,
    pub y: i32,
}

/// Keys that the input handling recognises.
#[allow(non_camel_case_types)]
#[derive(Clone, Copy, Debug, PartialEq, Eq, Structural)]
pub enum Key {
    w,
    a,
    s,
    d,
    q,
}

/// The most recent raw key code delivered to an input-bearing entity
/// (0 when no key is pending).
#[derive(Clone, Copy, Debug, PartialEq, Eq, Structural)]
pub struct Input {
    pub input: i32,
}

impl Input {
    pub fn new() -> (r: Self)
        ensures
            r.input == 0,
    {
        Self { input: 0 }
    }
}

#[derive(Clone, Copy, Debug, PartialEq, Eq, Structural)]
pub struct Timed;

/// Drawing order: map tiles below items, items below actors.
#[derive(Clone, Copy, Debug, PartialEq, Eq, PartialOrd, Ord, Structural)]
pub enum RenderLayer {
    Tile,
    Item,
    Player,
}

/// How an entity is drawn.
#[derive(Clone, Copy, Debug, PartialEq, Eq, Structural)]
pub struct Render {
    pub glyph: char,
    pub layer: RenderLayer,
}

/// Marks an entity whose position blocks others.
#[derive(Clone, Copy, Debug, PartialEq, Eq, Structural)]
pub struct Collidable;

impl Collidable {
    pub fn new() -> (r: Self) {
        Self {  }
    }
}

/// A requested position change for this tick.
#[derive(Clone, Copy, Debug, PartialEq, Eq, Structural)]
pub struct Walk {
    pub dx: i32,
    pub dy: i32,
}

impl Walk {
    pub fn new() -> (r: Self)
        ensures
            r.dx == 0,
            r.dy == 0,
    {
        Self { dx: 0, dy: 0 }
    }
}

/// In-game clock.
#[derive(Clone, Copy, Debug, PartialEq, Eq, Structural)]
pub struct GameTime {
    pub sec: i32,
    pub min: i32,
    pub hour: i32,
    pub day: i32,
    pub year: i32,
}

impl GameTime {
    /// Each field lies within its unit's range.
    pub open spec fn wf(self) -> bool {
        &&& 0 <= self.sec < 60
        &&& 0 <= self.min < 60
        &&& 0 <= self.hour < 24
        &&& 0 <= self.day < 365
        &&& 0 <= self.year
    }

    /// The time as a number of seconds since the start of year zero.
    pub open spec fn total_seconds(self) -> int {
        (((self.year as int * 365 + self.day) * 24 + self.hour) * 60 + self.min) * 60 + self.sec
    }

    pub fn new() -> (r: Self)
        ensures
            r.wf(),
            r.total_seconds() == 0,
    {
        Self { sec: 0, min: 0, hour: 0, day: 0, year: 0 }
    }

    /// The time one second later, carrying into minutes, hours, days and years.
    pub fn tick(&self) -> (r: Self)
        requires
            self.wf(),
            self.year < i32::MAX,
        ensures
            r.wf(),
            r.total_seconds() == self.total_seconds() + 1,
    {
        let mut t = *self;
        if t.sec < 59 {
            t.sec = t.sec + 1;
        } else {
            t.sec = 0;
            if t.min < 59 {
                t.min = t.min + 1;
            } else {
                t.min = 0;
                if t.hour < 23 {
                    t.hour = t.hour + 1;
                } else {
                    t.hour = 0;
                    if t.day < 364 {
                        t.day = t.day + 1;
                    } else {
                        t.day = 0;
                        t.year = t.year + 1;
                    }
                }
            }
        }
        t
    }
}

#[derive(Clone, Copy, Debug, PartialEq, Eq, Structural)]
pub struct Health {
    pub health: i32,
    pub max_health: i32,
}

/// Damage pending against `target`, applied by the damage system.
#[derive(Clone, Copy, Debug, PartialEq, Eq, Structural)]
pub struct Damage {
    pub amount: i32,
    pub target: Entity,
}

#[derive(Clone, Debug, PartialEq, Eq)]
pub struct Name {
    pub name: String,
}

/// Marks the player-controlled entity.
#[derive(Clone, Copy, Debug, PartialEq, Eq, Structural)]
pub struct Player;

/// The player-visible message log, oldest first.
#[derive(Clone, Debug, PartialEq, Eq)]
pub struct Log {
    pub history: Vec<String>,
}

impl Log {
    pub fn new() -> (r: Self)
        ensures
            r.history@.len() == 0,
    {
        Self { history: Vec::new() }
    }
}

/// A transient per-tick event attached to the entity that raised it.
#[derive(Clone, Copy, Debug, PartialEq, Eq, Structural)]
pub enum Event {
    /// The bearer's walk was blocked by the given entity.
    Collision(Entity),
}

#[derive(Clone, Copy, Debug, PartialEq, Eq, Structural)]
pub struct RandomWalkAi;

/// Turn-scheduling accumulator.
#[derive(Clone, Copy, Debug, PartialEq, Eq, Structural)]
pub struct Energy {
    pub amount: i32,
}

/// Constant per-entity scheduling rate.
#[derive(Clone, Copy, Debug, PartialEq, Eq, Structural)]
pub struct Speed {
    pub amount: i32,
}

#[derive(Clone, Copy, Debug, PartialEq, Eq, Structural)]
pub struct Pickup {
    pub target: Entity,
}

#[derive(Clone, Copy, Debug, PartialEq, Eq, Structural)]
pub struct Item;

#[derive(Clone, Copy, Debug, PartialEq, Eq, Structural)]
pub struct Consumable;

#[derive(Clone, Debug, PartialEq, Eq, Default)]
pub struct Inventory {
    items: Vec<Entity>,
}

impl Inventory {
    /// The items held, in the order they were added.
    pub closed spec fn contents(self) -> Seq<Entity> {
        self.items@
    }

    pub fn add_item(&mut self, item: Entity)
        ensures
            final(self).contents() == old(self).contents().push(item),
    {
        self.items.push(item);
    }
}

/// Marks the one entity currently allowed to act.
#[derive(Clone, Copy, Debug, PartialEq, Eq, Structural)]
pub struct Turn;

/// Lookups that miss on the bearer fall back to `prototype`.
#[derive(Clone, Copy, Debug, PartialEq, Eq, Structural)]
pub struct Prototype {
    pub prototype: Entity,
}

#[derive(Clone, Copy, Debug, PartialEq, Eq, Structural)]
pub struct Attributes {
    strength: i32,
    dexterity: i32,
    constitution: i32,
    intelligence: i32,
    wisdom: i32,
    charisma: i32,
}

#[derive(Clone, Copy, Debug, PartialEq, Eq, Structural)]
pub struct Ownable;

#[derive(Clone, Debug, PartialEq, Eq)]
pub struct ActionQueue {
    queue: Vec<String>,
}

impl ActionQueue {
    /// Number of queued actions.
    pub closed spec fn len(self) -> nat {
        self.queue@.len()
    }

    pub fn new() -> (r: Self)
        ensures
            r.len() == 0,
    {
        Self { queue: Vec::new() }
    }
}

#[derive(Clone, Copy, Debug, PartialEq, Eq, Structural)]
pub struct TestComponent;

/// The key code last seen by a keyboard-driven entity.
#[derive(Clone, Copy, Debug, PartialEq, Eq, Structural)]
pub struct KeyboardController {
    pub keycode: i32,
}

/// A game event waiting to be handled.
#[derive(Clone, Copy, Debug, PartialEq, Eq, Structural)]
pub enum GameEvent {
    Input(Key),
}

/// Events waiting to be handled, oldest first.
#[derive(Clone, Debug, PartialEq, Eq)]
pub struct EventQueue {
    pub queue: Vec<GameEvent>,
}

impl EventQueue {
    pub fn new() -> (r: Self)
        ensures
            r.queue@.len() == 0,
    {
        Self { queue: Vec::new() }
    }

    pub fn send(&mut self, event: GameEvent)
        ensures
            final(self).queue@ == old(self).queue@.push(event),
    {
        self.queue.push(event);
    }
}

/// A stored component of any kind.
#[derive(Clone, Debug, PartialEq, Eq)]
pub enum AnyComponent {
    Position(Position),
    Input(Input),
    Timed(Timed),
    Render(Render),
    Collidable(Collidable),
    Walk(Walk),
    GameTime(GameTime),
    Health(Health),
    Damage(Damage),
    Name(Name),
    Player(Player),
    Log(Log),
    Event(Event),
    RandomWalkAi(RandomWalkAi),
    Energy(Energy),
    Speed(Speed),
    Pickup(Pickup),
    Item(Item),
    Consumable(Consumable),
    Inventory(Inventory),
    Turn(Turn),
    Prototype(Prototype),
    Attributes(Attributes),
    Ownable(Ownable),
    ActionQueue(ActionQueue),
    TestComponent(TestComponent),
    KeyboardController(KeyboardController),
    EventQueue(EventQueue),
}

impl AnyComponent {
    /// The kind of the stored component.
    pub open spec fn kind(self) -> ComponentType {
        match self {
            AnyComponent::Position(_) => ComponentType::Position,
            AnyComponent::Input(_) => ComponentType::Input,
            AnyComponent::Timed(_) => ComponentType::Timed,
            AnyComponent::Render(_) => ComponentType::Render,
            AnyComponent::Collidable(_) => ComponentType::Collidable,
            AnyComponent::Walk(_) => ComponentType::Walk,
            AnyComponent::GameTime(_) => ComponentType::GameTime,
            AnyComponent::Health(_) => ComponentType::Health,
            AnyComponent::Damage(_) => ComponentType::Damage,
            AnyComponent::Name(_) => ComponentType::Name,
            AnyComponent::Player(_) => ComponentType::Player,
            AnyComponent::Log(_) => ComponentType::Log,
            AnyComponent::Event(_) => ComponentType::Event,
            AnyComponent::RandomWalkAi(_) => ComponentType::RandomWalkAi,
            AnyComponent::Energy(_) => ComponentType::Energy,
            AnyComponent::Speed(_) => ComponentType::Speed,
            AnyComponent::Pickup(_) => ComponentType::Pickup,
            AnyComponent::Item(_) => ComponentType::Item,
            AnyComponent::Consumable(_) => ComponentType::Consumable,
            AnyComponent::Inventory(_) => ComponentType::Inventory,
            AnyComponent::Turn(_) => ComponentType::Turn,
            AnyComponent::Prototype(_) => ComponentType::Prototype,
            AnyComponent::Attributes(_) => ComponentType::Attributes,
            AnyComponent::Ownable(_) => ComponentType::Ownable,
            AnyComponent::ActionQueue(_) => ComponentType::ActionQueue,
            AnyComponent::TestComponent(_) => ComponentType::TestComponent,
            AnyComponent::KeyboardController(_) => ComponentType::KeyboardController,
            AnyComponent::EventQueue(_) => ComponentType::EventQueue,
        }
    }

    pub fn get_type(&self) -> (r: ComponentType)
        ensures
            r == self.kind(),
    {
        match self {
            AnyComponent::Position(_) => ComponentType::Position,
            AnyComponent::Input(_) => ComponentType::Input,
            AnyComponent::Timed(_) => ComponentType::Timed,
            AnyComponent::Render(_) => ComponentType::Render,
            AnyComponent::Collidable(_) => ComponentType::Collidable,
            AnyComponent::Walk(_) => ComponentType::Walk,
            AnyComponent::GameTime(_) => ComponentType::GameTime,
            AnyComponent::Health(_) => ComponentType::Health,
            AnyComponent::Damage(_) => ComponentType::Damage,
            AnyComponent::Name(_) => ComponentType::Name,
            AnyComponent::Player(_) => ComponentType::Player,
            AnyComponent::Log(_) => ComponentType::Log,
            AnyComponent::Event(_) => ComponentType::Event,
            AnyComponent::RandomWalkAi(_) => ComponentType::RandomWalkAi,
            AnyComponent::Energy(_) => ComponentType::Energy,
            AnyComponent::Speed(_) => ComponentType::Speed,
            AnyComponent::Pickup(_) => ComponentType::Pickup,
            AnyComponent::Item(_) => ComponentType::Item,
            AnyComponent::Consumable(_) => ComponentType::Consumable,
            AnyComponent::Inventory(_) => ComponentType::Inventory,
            AnyComponent::Turn(_) => ComponentType::Turn,
            AnyComponent::Prototype(_) => ComponentType::Prototype,
            AnyComponent::Attributes(_) => ComponentType::Attributes,
            AnyComponent::Ownable(_) => ComponentType::Ownable,
            AnyComponent::ActionQueue(_) => ComponentType::ActionQueue,
            AnyComponent::TestComponent(_) => ComponentType::TestComponent,
            AnyComponent::KeyboardController(_) => ComponentType::KeyboardController,
            AnyComponent::EventQueue(_) => ComponentType::EventQueue,
        }
    }
}

/// A concrete component type: a plain data value of one fixed kind.
pub trait Component: Sized {
    /// The kind under which values of this type are stored.
    spec fn kind() -> ComponentType;

    /// This value as a stored component.
    spec fn to_any(self) -> AnyComponent;

    /// Storing a value keeps its kind, and distinct values stay distinct.
    proof fn lemma_to_any(a: Self, b: Self)
        ensures
            a.to_any().kind() == Self::kind(),
            a.to_any() == b.to_any() ==> a == b,
    ;

    fn get_component_type() -> (r: ComponentType)
        ensures
            r == Self::kind(),
    ;

    fn get_type(&self) -> (r: ComponentType)
        ensures
            r == Self::kind(),
    {
        Self::get_component_type()
    }

    fn into_any(self) -> (r: AnyComponent)
        ensures
            r == self.to_any(),
            r.kind() == Self::kind(),
    ;

    /// Views a stored component as this type, if it is of this kind.
    fn downcast_ref(c: &AnyComponent) -> (r: Option<&Self>)
        ensures
            match r {
                Some(v) => v.to_any() == *c,
                None => c.kind() != Self::kind(),
            },
    ;
}

impl Component for Position {
    open spec fn kind() -> ComponentType {
        ComponentType::Position
    }

    open spec fn to_any(self) -> AnyComponent {
        AnyComponent::Position(self)
    }

    proof fn lemma_to_any(a: Self, b: Self) {
    }

    fn get_component_type() -> (r: ComponentType) {
        ComponentType::Position
    }

    fn into_any(self) -> (r: AnyComponent) {
        AnyComponent::Position(self)
    }

    fn downcast_ref(c: &AnyComponent) -> (r: Option<&Self>) {
        match c {
            AnyComponent::Position(v) => Some(v),
            _ => None,
        }
    }
}

impl Component for Input {
    open spec fn kind() -> ComponentType {
        ComponentType::Input
    }

    open spec fn to_any(self) -> AnyComponent {
        AnyComponent::Input(self)
    }

    proof fn lemma_to_any(a: Self, b: Self) {
    }

    fn get_component_type() -> (r: ComponentType) {
        ComponentType::Input
    }

    fn into_any(self) -> (r: AnyComponent) {
        AnyComponent::Input(self)
    }

    fn downcast_ref(c: &AnyComponent) -> (r: Option<&Self>) {
        match c {
            AnyComponent::Input(v) => Some(v),
            _ => None,
        }
    }
}

impl Component for Timed {
    open spec fn kind() -> ComponentType {
        ComponentType::Timed
    }

    open spec fn to_any(self) -> AnyComponent {
        AnyComponent::Timed(self)
    }

    proof fn lemma_to_any(a: Self, b: Self) {
    }

    fn get_component_type() -> (r: ComponentType) {
        ComponentType::Timed
    }

    fn into_any(self) -> (r: AnyComponent) {
        AnyComponent::Timed(self)
    }

    fn downcast_ref(c: &AnyComponent) -> (r: Option<&Self>) {
        match c {
            AnyComponent::Timed(v) => Some(v),
            _ => None,
        }
    }
}

impl Component for Render {
    open spec fn kind() -> ComponentType {
        ComponentType::Render
    }

    open spec fn to_any(self) -> AnyComponent {
        AnyComponent::Render(self)
    }

    proof fn lemma_to_any(a: Self, b: Self) {
    }

    fn get_component_type() -> (r: ComponentType) {
        ComponentType::Render
    }

    fn into_any(self) -> (r: AnyComponent) {
        AnyComponent::Render(self)
    }

    fn downcast_ref(c: &AnyComponent) -> (r: Option<&Self>) {
        match c {
            AnyComponent::Render(v) => Some(v),
            _ => None,
        }
    }
}

impl Component for Collidable {
    open spec fn kind() -> ComponentType {
        ComponentType::Collidable
    }

    open spec fn to_any(self) -> AnyComponent {
        AnyComponent::Collidable(self)
    }

    proof fn lemma_to_any(a: Self, b: Self) {
    }

    fn get_component_type() -> (r: ComponentType) {
        ComponentType::Collidable
    }

    fn into_any(self) -> (r: AnyComponent) {
        AnyComponent::Collidable(self)
    }

    fn downcast_ref(c: &AnyComponent) -> (r: Option<&Self>) {
        match c {
            AnyComponent::Collidable(v) => Some(v),
            _ => None,
        }
    }
}

impl Component for Walk {
    open spec fn kind() -> ComponentType {
        ComponentType::Walk
    }

    open spec fn to_any(self) -> AnyComponent {
        AnyComponent::Walk(self)
    }

    proof fn lemma_to_any(a: Self, b: Self) {
    }

    fn get_component_type() -> (r: ComponentType) {
        ComponentType::Walk
    }

    fn into_any(self) -> (r: AnyComponent) {
        AnyComponent::Walk(self)
    }

    fn downcast_ref(c: &AnyComponent) -> (r: Option<&Self>) {
        match c {
            AnyComponent::Walk(v) => Some(v),
            _ => None,
        }
    }
}

impl Component for GameTime {
    open spec fn kind() -> ComponentType {
        ComponentType::GameTime
    }

    open spec fn to_any(self) -> AnyComponent {
        AnyComponent::GameTime(self)
    }

    proof fn lemma_to_any(a: Self, b: Self) {
    }

    fn get_component_type() -> (r: ComponentType) {
        ComponentType::GameTime
    }

    fn into_any(self) -> (r: AnyComponent) {
        AnyComponent::GameTime(self)
    }

    fn downcast_ref(c: &AnyComponent) -> (r: Option<&Self>) {
        match c {
            AnyComponent::GameTime(v) => Some(v),
            _ => None,
        }
    }
}

impl Component for Health {
    open spec fn kind() -> ComponentType {
        ComponentType::Health
    }

    open spec fn to_any(self) -> AnyComponent {
        AnyComponent::Health(self)
    }

    proof fn lemma_to_any(a: Self, b: Self) {
    }

    fn get_component_type() -> (r: ComponentType) {
        ComponentType::Health
    }

    fn into_any(self) -> (r: AnyComponent) {
        AnyComponent::Health(self)
    }

    fn downcast_ref(c: &AnyComponent) -> (r: Option<&Self>) {
        match c {
            AnyComponent::Health(v) => Some(v),
            _ => None,
        }
    }
}

impl Component for Damage {
    open spec fn kind() -> ComponentType {
        ComponentType::Damage
    }

    open spec fn to_any(self) -> AnyComponent {
        AnyComponent::Damage(self)
    }

    proof fn lemma_to_any(a: Self, b: Self) {
    }

    fn get_component_type() -> (r: ComponentType) {
        ComponentType::Damage
    }

    fn into_any(self) -> (r: AnyComponent) {
        AnyComponent::Damage(self)
    }

    fn downcast_ref(c: &AnyComponent) -> (r: Option<&Self>) {
        match c {
            AnyComponent::Damage(v) => Some(v),
            _ => None,
        }
    }
}

impl Component for Name {
    open spec fn kind() -> ComponentType {
        ComponentType::Name
    }

    open spec fn to_any(self) -> AnyComponent {
        AnyComponent::Name(self)
    }

    proof fn lemma_to_any(a: Self, b: Self) {
    }

    fn get_component_type() -> (r: ComponentType) {
        ComponentType::Name
    }

    fn into_any(self) -> (r: AnyComponent) {
        AnyComponent::Name(self)
    }

    fn downcast_ref(c: &AnyComponent) -> (r: Option<&Self>) {
        match c {
            AnyComponent::Name(v) => Some(v),
            _ => None,
        }
    }
}

impl Component for Player {
    open spec fn kind() -> ComponentType {
        ComponentType::Player
    }

    open spec fn to_any(self) -> AnyComponent {
        AnyComponent::Player(self)
    }

    proof fn lemma_to_any(a: Self, b: Self) {
    }

    fn get_component_type() -> (r: ComponentType) {
        ComponentType::Player
    }

    fn into_any(self) -> (r: AnyComponent) {
        AnyComponent::Player(self)
    }

    fn downcast_ref(c: &AnyComponent) -> (r: Option<&Self>) {
        match c {
            AnyComponent::Player(v) => Some(v),
            _ => None,
        }
    }
}

impl Component for Log {
    open spec fn kind() -> ComponentType {
        ComponentType::Log
    }

    open spec fn to_any(self) -> AnyComponent {
        AnyComponent::Log(self)
    }

    proof fn lemma_to_any(a: Self, b: Self) {
    }

    fn get_component_type() -> (r: ComponentType) {
        ComponentType::Log
    }

    fn into_any(self) -> (r: AnyComponent) {
        AnyComponent::Log(self)
    }

    fn downcast_ref(c: &AnyComponent) -> (r: Option<&Self>) {
        match c {
            AnyComponent::Log(v) => Some(v),
            _ => None,
        }
    }
}

impl Component for Event {
    open spec fn kind() -> ComponentType {
        ComponentType::Event
    }

    open spec fn to_any(self) -> AnyComponent {
        AnyComponent::Event(self)
    }

    proof fn lemma_to_any(a: Self, b: Self) {
    }

    fn get_component_type() -> (r: ComponentType) {
        ComponentType::Event
    }

    fn into_any(self) -> (r: AnyComponent) {
        AnyComponent::Event(self)
    }

    fn downcast_ref(c: &AnyComponent) -> (r: Option<&Self>) {
        match c {
            AnyComponent::Event(v) => Some(v),
            _ => None,
        }
    }
}

impl Component for RandomWalkAi {
    open spec fn kind() -> ComponentType {
        ComponentType::RandomWalkAi
    }

    open spec fn to_any(self) -> AnyComponent {
        AnyComponent::RandomWalkAi(self)
    }

    proof fn lemma_to_any(a: Self, b: Self) {
    }

    fn get_component_type() -> (r: ComponentType) {
        ComponentType::RandomWalkAi
    }

    fn into_any(self) -> (r: AnyComponent) {
        AnyComponent::RandomWalkAi(self)
    }

    fn downcast_ref(c: &AnyComponent) -> (r: Option<&Self>) {
        match c {
            AnyComponent::RandomWalkAi(v) => Some(v),
            _ => None,
        }
    }
}

impl Component for Energy {
    open spec fn kind() -> ComponentType {
        ComponentType::Energy
    }

    open spec fn to_any(self) -> AnyComponent {
        AnyComponent::Energy(self)
    }

    proof fn lemma_to_any(a: Self, b: Self) {
    }

    fn get_component_type() -> (r: ComponentType) {
        ComponentType::Energy
    }

    fn into_any(self) -> (r: AnyComponent) {
        AnyComponent::Energy(self)
    }

    fn downcast_ref(c: &AnyComponent) -> (r: Option<&Self>) {
        match c {
            AnyComponent::Energy(v) => Some(v),
            _ => None,
        }
    }
}

impl Component for Speed {
    open spec fn kind() -> ComponentType {
        ComponentType::Speed
    }

    open spec fn to_any(self) -> AnyComponent {
        AnyComponent::Speed(self)
    }

    proof fn lemma_to_any(a: Self, b: Self) {
    }

    fn get_component_type() -> (r: ComponentType) {
        ComponentType::Speed
    }

    fn into_any(self) -> (r: AnyComponent) {
        AnyComponent::Speed(self)
    }

    fn downcast_ref(c: &AnyComponent) -> (r: Option<&Self>) {
        match c {
            AnyComponent::Speed(v) => Some(v),
            _ => None,
        }
    }
}

impl Component for Pickup {
    open spec fn kind() -> ComponentType {
        ComponentType::Pickup
    }

    open spec fn to_any(self) -> AnyComponent {
        AnyComponent::Pickup(self)
    }

    proof fn lemma_to_any(a: Self, b: Self) {
    }

    fn get_component_type() -> (r: ComponentType) {
        ComponentType::Pickup
    }

    fn into_any(self) -> (r: AnyComponent) {
        AnyComponent::Pickup(self)
    }

    fn downcast_ref(c: &AnyComponent) -> (r: Option<&Self>) {
        match c {
            AnyComponent::Pickup(v) => Some(v),
            _ => None,
        }
    }
}

impl Component for Item {
    open spec fn kind() -> ComponentType {
        ComponentType::Item
    }

    open spec fn to_any(self) -> AnyComponent {
        AnyComponent::Item(self)
    }

    proof fn lemma_to_any(a: Self, b: Self) {
    }

    fn get_component_type() -> (r: ComponentType) {
        ComponentType::Item
    }

    fn into_any(self) -> (r: AnyComponent) {
        AnyComponent::Item(self)
    }

    fn downcast_ref(c: &AnyComponent) -> (r: Option<&Self>) {
        match c {
            AnyComponent::Item(v) => Some(v),
            _ => None,
        }
    }
}

impl Component for Consumable {
    open spec fn kind() -> ComponentType {
        ComponentType::Consumable
    }

    open spec fn to_any(self) -> AnyComponent {
        AnyComponent::Consumable(self)
    }

    proof fn lemma_to_any(a: Self, b: Self) {
    }

    fn get_component_type() -> (r: ComponentType) {
        ComponentType::Consumable
    }

    fn into_any(self) -> (r: AnyComponent) {
        AnyComponent::Consumable(self)
    }

    fn downcast_ref(c: &AnyComponent) -> (r: Option<&Self>) {
        match c {
            AnyComponent::Consumable(v) => Some(v),
            _ => None,
        }
    }
}

impl Component for Inventory {
    open spec fn kind() -> ComponentType {
        ComponentType::Inventory
    }

    open spec fn to_any(self) -> AnyComponent {
        AnyComponent::Inventory(self)
    }

    proof fn lemma_to_any(a: Self, b: Self) {
    }

    fn get_component_type() -> (r: ComponentType) {
        ComponentType::Inventory
    }

    fn into_any(self) -> (r: AnyComponent) {
        AnyComponent::Inventory(self)
    }

    fn downcast_ref(c: &AnyComponent) -> (r: Option<&Self>) {
        match c {
            AnyComponent::Inventory(v) => Some(v),
            _ => None,
        }
    }
}

impl Component for Turn {
    open spec fn kind() -> ComponentType {
        ComponentType::Turn
    }

    open spec fn to_any(self) -> AnyComponent {
        AnyComponent::Turn(self)
    }

    proof fn lemma_to_any(a: Self, b: Self) {
    }

    fn get_component_type() -> (r: ComponentType) {
        ComponentType::Turn
    }

    fn into_any(self) -> (r: AnyComponent) {
        AnyComponent::Turn(self)
    }

    fn downcast_ref(c: &AnyComponent) -> (r: Option<&Self>) {
        match c {
            AnyComponent::Turn(v) => Some(v),
            _ => None,
        }
    }
}

impl Component for Prototype {
    open spec fn kind() -> ComponentType {
        ComponentType::Prototype
    }

    open spec fn to_any(self) -> AnyComponent {
        AnyComponent::Prototype(self)
    }

    proof fn lemma_to_any(a: Self, b: Self) {
    }

    fn get_component_type() -> (r: ComponentType) {
        ComponentType::Prototype
    }

    fn into_any(self) -> (r: AnyComponent) {
        AnyComponent::Prototype(self)
    }

    fn downcast_ref(c: &AnyComponent) -> (r: Option<&Self>) {
        match c {
            AnyComponent::Prototype(v) => Some(v),
            _ => None,
        }
    }
}

impl Component for Attributes {
    open spec fn kind() -> ComponentType {
        ComponentType::Attributes
    }

    open spec fn to_any(self) -> AnyComponent {
        AnyComponent::Attributes(self)
    }

    proof fn lemma_to_any(a: Self, b: Self) {
    }

    fn get_component_type() -> (r: ComponentType) {
        ComponentType::Attributes
    }

    fn into_any(self) -> (r: AnyComponent) {
        AnyComponent::Attributes(self)
    }

    fn downcast_ref(c: &AnyComponent) -> (r: Option<&Self>) {
        match c {
            AnyComponent::Attributes(v) => Some(v),
            _ => None,
        }
    }
}

impl Component for Ownable {
    open spec fn kind() -> ComponentType {
        ComponentType::Ownable
    }

    open spec fn to_any(self) -> AnyComponent {
        AnyComponent::Ownable(self)
    }

    proof fn lemma_to_any(a: Self, b: Self) {
    }

    fn get_component_type() -> (r: ComponentType) {
        ComponentType::Ownable
    }

    fn into_any(self) -> (r: AnyComponent) {
        AnyComponent::Ownable(self)
    }

    fn downcast_ref(c: &AnyComponent) -> (r: Option<&Self>) {
        match c {
            AnyComponent::Ownable(v) => Some(v),
            _ => None,
        }
    }
}

impl Component for ActionQueue {
    open spec fn kind() -> ComponentType {
        ComponentType::ActionQueue
    }

    open spec fn to_any(self) -> AnyComponent {
        AnyComponent::ActionQueue(self)
    }

    proof fn lemma_to_any(a: Self, b: Self) {
    }

    fn get_component_type() -> (r: ComponentType) {
        ComponentType::ActionQueue
    }

    fn into_any(self) -> (r: AnyComponent) {
        AnyComponent::ActionQueue(self)
    }

    fn downcast_ref(c: &AnyComponent) -> (r: Option<&Self>) {
        match c {
            AnyComponent::ActionQueue(v) => Some(v),
            _ => None,
        }
    }
}

impl Component for TestComponent {
    open spec fn kind() -> ComponentType {
        ComponentType::TestComponent
    }

    open spec fn to_any(self) -> AnyComponent {
        AnyComponent::TestComponent(self)
    }

    proof fn lemma_to_any(a: Self, b: Self) {
    }

    fn get_component_type() -> (r: ComponentType) {
        ComponentType::TestComponent
    }

    fn into_any(self) -> (r: AnyComponent) {
        AnyComponent::TestComponent(self)
    }

    fn downcast_ref(c: &AnyComponent) -> (r: Option<&Self>) {
        match c {
            AnyComponent::TestComponent(v) => Some(v),
            _ => None,
        }
    }
}

impl Component for EventQueue {
    open spec fn kind() -> ComponentType {
        ComponentType::EventQueue
    }

    open spec fn to_any(self) -> AnyComponent {
        AnyComponent::EventQueue(self)
    }

    proof fn lemma_to_any(a: Self, b: Self) {
    }

    fn get_component_type() -> (r: ComponentType) {
        ComponentType::EventQueue
    }

    fn into_any(self) -> (r: AnyComponent) {
        AnyComponent::EventQueue(self)
    }

    fn downcast_ref(c: &AnyComponent) -> (r: Option<&Self>) {
        match c {
            AnyComponent::EventQueue(v) => Some(v),
            _ => None,
        }
    }
}

impl Component for KeyboardController {
    open spec fn kind() -> ComponentType {
        ComponentType::KeyboardController
    }

    open spec fn to_any(self) -> AnyComponent {
        AnyComponent::KeyboardController(self)
    }

    proof fn lemma_to_any(a: Self, b: Self) {
    }

    fn get_component_type() -> (r: ComponentType) {
        ComponentType::KeyboardController
    }

    fn into_any(self) -> (r: AnyComponent) {
        AnyComponent::KeyboardController(self)
    }

    fn downcast_ref(c: &AnyComponent) -> (r: Option<&Self>) {
        match c {
            AnyComponent::KeyboardController(v) => Some(v),
            _ => None,
        }
    }
}

} // verus!
