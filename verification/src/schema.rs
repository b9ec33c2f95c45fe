//! The published shape of each event: the bytes that tag it and the
//! fields that follow, in wire order.

use vstd::prelude::*;

verus! {

/// The identifier of the exchange program.
pub const ID: &'static str = "pAMMBay6oceH9fJKBRHGP5D4bD4sWpmSwMn52FMfXEA";

/// The kinds of event that the exchange program emits.
#[derive(Clone, Copy, Debug, PartialEq, Eq, Structural)]
pub enum EventKind {
    Buy,
    Sell,
    CreatePool,
    Deposit,
    Withdraw,
}

/// The wire types of the fields of an event. Integers are little-endian.
#[derive(Clone, Copy, Debug, PartialEq, Eq, Structural)]
pub enum FieldKind {
    U8,
    U16,
    U64,
    I64,
    /// An account address: 32 bytes.
    Pubkey,
}

/// The number of bytes that a field of this kind takes.
pub open spec fn width_spec(kind: FieldKind) -> nat {
    match kind {
        FieldKind::U8 => 1,
        FieldKind::U16 => 2,
        FieldKind::U64 => 8,
        FieldKind::I64 => 8,
        FieldKind::Pubkey => 32,
    }
}

/// The number of bytes that the fields of `layout` take together.
pub open spec fn layout_width(layout: Seq<FieldKind>) -> nat
    decreases layout.len(),
{
    if layout.len() == 0 {
        0
    } else {
        layout_width(layout.drop_last()) + width_spec(layout.last())
    }
}

/// Where the field at `index` begins.
pub open spec fn offset_of(layout: Seq<FieldKind>, index: int) -> nat {
    layout_width(layout.take(index))
}

/// The fields up to any index take no more bytes than all of them.
pub proof fn lemma_offset_within(layout: Seq<FieldKind>, index: int)
    requires
        0 <= index <= layout.len(),
    ensures
        offset_of(layout, index) <= layout_width(layout),
    decreases layout.len(),
{
    if index == layout.len() {
        assert(layout.take(index) =~= layout);
    } else {
        assert(layout.drop_last().take(index) =~= layout.take(index));
        lemma_offset_within(layout.drop_last(), index);
    }
}

/// A field begins where the one before it ends.
pub proof fn lemma_offset_next(layout: Seq<FieldKind>, index: int)
    requires
        0 <= index < layout.len(),
    ensures
        offset_of(layout, index + 1) == offset_of(layout, index) + width_spec(layout[index]),
{
    assert(layout.take(index + 1).drop_last() =~= layout.take(index));
}

impl FieldKind {
    /// The number of bytes that a field of this kind takes.
    pub fn width(self) -> (bytes: usize)
        ensures
            bytes == width_spec(self),
    {
        match self {
            FieldKind::U8 => 1,
            FieldKind::U16 => 2,
            FieldKind::U64 => 8,
            FieldKind::I64 => 8,
            FieldKind::Pubkey => 32,
        }
    }
}

/// How one kind of event is recognised and laid out.
#[derive(Debug, PartialEq, Eq)]
pub struct Schema {
    pub kind: EventKind,
    /// The bytes that a payload of this kind begins with.
    pub discriminator: Vec<u8>,
    /// The fields that follow the discriminator.
    pub layout: Vec<FieldKind>,
}

/// The mathematical value of a [`Schema`].
pub struct SchemaModel {
    pub kind: EventKind,
    pub discriminator: Seq<u8>,
    pub layout: Seq<FieldKind>,
}

impl View for Schema {
    type V = SchemaModel;

    open spec fn view(&self) -> SchemaModel {
        SchemaModel { kind: self.kind, discriminator: self.discriminator@, layout: self.layout@ }
    }
}

/// The values of a list of schemas.
pub open spec fn schema_models(schemas: Seq<Schema>) -> Seq<SchemaModel> {
    Seq::new(schemas.len(), |i: int| schemas[i]@)
}

/// A swap, seen from either side: a timestamp, thirteen amounts and six
/// accounts.
///
/// As a purchase the amounts are: base out, the most quote allowed in, the
/// user's base and quote reserves, the pool's base and quote reserves, quote
/// in, the provider fee in basis points and as an amount, the protocol fee in
/// basis points and as an amount, quote in with the provider fee, and what
/// the user paid. As a sale they are the same with in and out exchanged.
/// The accounts are the pool, the user, the user's base and quote token
/// accounts, the protocol fee recipient and its token account.
pub open spec fn swap_layout() -> Seq<FieldKind> {
    seq![
        FieldKind::I64,
        FieldKind::U64,
        FieldKind::U64,
        FieldKind::U64,
        FieldKind::U64,
        FieldKind::U64,
        FieldKind::U64,
        FieldKind::U64,
        FieldKind::U64,
        FieldKind::U64,
        FieldKind::U64,
        FieldKind::U64,
        FieldKind::U64,
        FieldKind::U64,
        FieldKind::Pubkey,
        FieldKind::Pubkey,
        FieldKind::Pubkey,
        FieldKind::Pubkey,
        FieldKind::Pubkey,
        FieldKind::Pubkey,
    ]
}

/// The opening of a pool: a timestamp, the pool's index, the creator, the
/// base and quote mints with their decimals, base and quote paid in, the
/// pool's base and quote amounts, the minimum and the initial liquidity, the
/// pool tokens handed out, the pool's bump, and then the pool, its token
/// mint and the user's base and quote token accounts.
pub open spec fn create_pool_layout() -> Seq<FieldKind> {
    seq![
        FieldKind::I64,
        FieldKind::U16,
        FieldKind::Pubkey,
        FieldKind::Pubkey,
        FieldKind::Pubkey,
        FieldKind::U8,
        FieldKind::U8,
        FieldKind::U64,
        FieldKind::U64,
        FieldKind::U64,
        FieldKind::U64,
        FieldKind::U64,
        FieldKind::U64,
        FieldKind::U64,
        FieldKind::U8,
        FieldKind::Pubkey,
        FieldKind::Pubkey,
        FieldKind::Pubkey,
        FieldKind::Pubkey,
    ]
}

/// A change of liquidity, in or out: a timestamp, ten amounts and five
/// accounts.
///
/// As a deposit the amounts are: pool tokens out, the most base and quote
/// allowed in, the user's base and quote reserves, the pool's base and quote
/// reserves, base and quote paid in, and the supply of pool tokens. As a
/// withdrawal they are the same with in and out exchanged. The accounts are
/// the pool, the user, and the user's base, quote and pool token accounts.
pub open spec fn liquidity_layout() -> Seq<FieldKind> {
    seq![
        FieldKind::I64,
        FieldKind::U64,
        FieldKind::U64,
        FieldKind::U64,
        FieldKind::U64,
        FieldKind::U64,
        FieldKind::U64,
        FieldKind::U64,
        FieldKind::U64,
        FieldKind::U64,
        FieldKind::U64,
        FieldKind::Pubkey,
        FieldKind::Pubkey,
        FieldKind::Pubkey,
        FieldKind::Pubkey,
        FieldKind::Pubkey,
    ]
}

/// The bytes that tag a payload of `kind`.
pub open spec fn discriminator_spec(kind: EventKind) -> Seq<u8> {
    match kind {
        EventKind::Buy => seq![103u8, 244u8, 82u8, 31u8, 44u8, 245u8, 119u8, 119u8],
        EventKind::Sell => seq![62u8, 47u8, 55u8, 10u8, 165u8, 3u8, 220u8, 42u8],
        EventKind::CreatePool => seq![177u8, 49u8, 12u8, 210u8, 160u8, 118u8, 167u8, 116u8],
        EventKind::Deposit => seq![120u8, 248u8, 61u8, 83u8, 31u8, 142u8, 107u8, 144u8],
        EventKind::Withdraw => seq![22u8, 9u8, 133u8, 26u8, 160u8, 44u8, 71u8, 192u8],
    }
}

/// The fields of a payload of `kind`.
pub open spec fn layout_spec(kind: EventKind) -> Seq<FieldKind> {
    match kind {
        EventKind::Buy => swap_layout(),
        EventKind::Sell => swap_layout(),
        EventKind::CreatePool => create_pool_layout(),
        EventKind::Deposit => liquidity_layout(),
        EventKind::Withdraw => liquidity_layout(),
    }
}

/// The published schema of `kind`.
pub open spec fn schema_spec(kind: EventKind) -> SchemaModel {
    SchemaModel { kind, discriminator: discriminator_spec(kind), layout: layout_spec(kind) }
}

/// The published schemas, in the order in which a payload is tried
/// against them.
pub open spec fn known_schemas_spec() -> Seq<SchemaModel> {
    seq![
        schema_spec(EventKind::Buy),
        schema_spec(EventKind::Sell),
        schema_spec(EventKind::CreatePool),
        schema_spec(EventKind::Deposit),
        schema_spec(EventKind::Withdraw),
    ]
}

fn repeat(layout: &mut Vec<FieldKind>, kind: FieldKind, times: usize)
    ensures
        final(layout)@ == old(layout)@ + Seq::new(times as nat, |i: int| kind),
{
    let mut i: usize = 0;
    while i < times
        invariant
            i <= times,
            layout@ == old(layout)@ + Seq::new(i as nat, |j: int| kind),
        decreases times - i,
    {
        layout.push(kind);
        i += 1;
        assert(layout@ =~= old(layout)@ + Seq::new(i as nat, |j: int| kind));
    }
}

fn swap_fields() -> (layout: Vec<FieldKind>)
    ensures
        layout@ == swap_layout(),
{
    let mut layout: Vec<FieldKind> = Vec::new();
    layout.push(FieldKind::I64);
    repeat(&mut layout, FieldKind::U64, 13);
    repeat(&mut layout, FieldKind::Pubkey, 6);
    assert(layout@ =~= swap_layout());
    layout
}

fn create_pool_fields() -> (layout: Vec<FieldKind>)
    ensures
        layout@ == create_pool_layout(),
{
    let mut layout: Vec<FieldKind> = Vec::new();
    layout.push(FieldKind::I64);
    layout.push(FieldKind::U16);
    repeat(&mut layout, FieldKind::Pubkey, 3);
    repeat(&mut layout, FieldKind::U8, 2);
    repeat(&mut layout, FieldKind::U64, 7);
    layout.push(FieldKind::U8);
    repeat(&mut layout, FieldKind::Pubkey, 4);
    assert(layout@ =~= create_pool_layout());
    layout
}

fn liquidity_fields() -> (layout: Vec<FieldKind>)
    ensures
        layout@ == liquidity_layout(),
{
    let mut layout: Vec<FieldKind> = Vec::new();
    layout.push(FieldKind::I64);
    repeat(&mut layout, FieldKind::U64, 10);
    repeat(&mut layout, FieldKind::Pubkey, 5);
    assert(layout@ =~= liquidity_layout());
    layout
}

fn tag(b0: u8, b1: u8, b2: u8, b3: u8, b4: u8, b5: u8, b6: u8, b7: u8) -> (bytes: Vec<u8>)
    ensures
        bytes@ == seq![b0, b1, b2, b3, b4, b5, b6, b7],
{
    let mut bytes: Vec<u8> = Vec::new();
    bytes.push(b0);
    bytes.push(b1);
    bytes.push(b2);
    bytes.push(b3);
    bytes.push(b4);
    bytes.push(b5);
    bytes.push(b6);
    bytes.push(b7);
    assert(bytes@ =~= seq![b0, b1, b2, b3, b4, b5, b6, b7]);
    bytes
}

impl Schema {
    /// The published schema of `kind`.
    pub fn of(kind: EventKind) -> (schema: Schema)
        ensures
            schema@ == schema_spec(kind),
    {
        match kind {
            EventKind::Buy => Schema {
                kind,
                discriminator: tag(103, 244, 82, 31, 44, 245, 119, 119),
                layout: swap_fields(),
            },
            EventKind::Sell => Schema {
                kind,
                discriminator: tag(62, 47, 55, 10, 165, 3, 220, 42),
                layout: swap_fields(),
            },
            EventKind::CreatePool => Schema {
                kind,
                discriminator: tag(177, 49, 12, 210, 160, 118, 167, 116),
                layout: create_pool_fields(),
            },
            EventKind::Deposit => Schema {
                kind,
                discriminator: tag(120, 248, 61, 83, 31, 142, 107, 144),
                layout: liquidity_fields(),
            },
            EventKind::Withdraw => Schema {
                kind,
                discriminator: tag(22, 9, 133, 26, 160, 44, 71, 192),
                layout: liquidity_fields(),
            },
        }
    }
}

/// The published schemas, in the order in which a payload is tried
/// against them.
pub fn known_schemas() -> (schemas: Vec<Schema>)
    ensures
        schema_models(schemas@) == known_schemas_spec(),
{
    let mut schemas: Vec<Schema> = Vec::new();
    schemas.push(Schema::of(EventKind::Buy));
    schemas.push(Schema::of(EventKind::Sell));
    schemas.push(Schema::of(EventKind::CreatePool));
    schemas.push(Schema::of(EventKind::Deposit));
    schemas.push(Schema::of(EventKind::Withdraw));
    assert(schema_models(schemas@) =~= known_schemas_spec());
    schemas
}

} // verus!
