//! Identifiers for rules, intents and resources, drawn from process-wide
//! snowflake generators, one per kind of identifier.

use idgenerator::{IdGeneratorOptions, IdVecInstance};
use vstd::prelude::*;

verus! {

/// The kinds of identifier; each has a generator of its own. `Len` only
/// counts the kinds before it.
#[derive(Clone, Copy, Debug, PartialEq, Eq, Structural)]
pub enum IdType {
    Rule,
    Intent,
    Resource,
    Len,
}

impl IdType {
    /// The position of the kind's generator.
    pub open spec fn spec_index(self) -> nat {
        match self {
            IdType::Rule => 0,
            IdType::Intent => 1,
            IdType::Resource => 2,
            IdType::Len => 3,
        }
    }

    pub fn index(self) -> (i: usize)
        ensures
            i == self.spec_index(),
    {
        match self {
            IdType::Rule => 0,
            IdType::Intent => 1,
            IdType::Resource => 2,
            IdType::Len => 3,
        }
    }
}

/// Bit width of the worker number inside an identifier.
pub const WORKER_ID_BITS: u8 = 6;

/// Bit width of the sequence number inside an identifier.
pub const SEQUENCE_BITS: u8 = 12;

/// The identifier handed out while no generator is installed.
pub const UNASSIGNED_ID: i64 = 0;

/// The options of one generator, `idgenerator::IdGeneratorOptions`: a value
/// that is carried from its builder to the installation and never looked
/// into here.
#[verifier::external_type_specification]
#[verifier::external_body]
pub struct ExIdGeneratorOptions(IdGeneratorOptions);

/// The two bit widths of an identifier may take this many bits together.
pub const MAX_ID_BITS: u8 = 22;

/// Options for one generator. Trusted: calls the builder methods
/// `IdGeneratorOptions::new`, `worker_id`, `worker_id_bit_len` and
/// `seq_bit_len`; nothing is claimed of the value. The two bit widths are
/// kept within `MAX_ID_BITS`, since the installation adds them up in eight
/// bits before it checks them.
#[verifier::external_body]
fn generator_options(worker_id: u32, worker_bits: u8, sequence_bits: u8) -> IdGeneratorOptions
    requires
        worker_bits + sequence_bits <= MAX_ID_BITS,
{
    IdGeneratorOptions::new().worker_id(worker_id).worker_id_bit_len(worker_bits).seq_bit_len(
        sequence_bits,
    )
}

/// Replaces the process-wide generators by one per option. Trusted: calls
/// `IdVecInstance::init` and reports whether it accepted the options;
/// nothing is claimed of the answer. Every option comes from
/// `generator_options`, so its bit widths are within `MAX_ID_BITS`.
#[verifier::external_body]
fn install_generators(options: Vec<IdGeneratorOptions>) -> bool {
    IdVecInstance::init(options).is_ok()
}

/// The next identifier of the generator at `index`, or `None` when no
/// generator stands there. Trusted: asks `IdVecInstance::get_options` whether
/// the position exists and only then calls `IdVecInstance::next_id`, which
/// would panic otherwise; nothing is claimed of the number.
#[verifier::external_body]
fn next_id(index: usize) -> Option<i64> {
    match IdVecInstance::get_options(index) {
        Ok(_) => Some(IdVecInstance::next_id(index)),
        Err(_) => None,
    }
}

/// What `generate_id` returns for a draw: the number drawn, or
/// `UNASSIGNED_ID` when there was no generator to draw from.
pub open spec fn id_of_draw(drawn: Option<i64>) -> i64 {
    match drawn {
        Some(id) => id,
        None => UNASSIGNED_ID,
    }
}

/// Turns a draw into an identifier.
pub fn id_from_draw(drawn: Option<i64>) -> (id: i64)
    ensures
        id == id_of_draw(drawn),
{
    match drawn {
        Some(id) => id,
        None => UNASSIGNED_ID,
    }
}

/// Installs one generator for each kind of identifier, numbered by the
/// kind's position. Returns whether the generators were accepted.
pub fn init_id_generator() -> bool {
    let mut options: Vec<IdGeneratorOptions> = Vec::new();
    let count: usize = IdType::Len.index();
    let mut i: usize = 0;
    while i < count
        invariant
            count == 3,
            i <= count,
            options.len() == i,
        decreases count - i,
    {
        options.push(generator_options(i as u32, WORKER_ID_BITS, SEQUENCE_BITS));
        i = i + 1;
    }
    install_generators(options)
}

/// Draws an identifier of the given kind: a number that the kind's
/// generator has not handed out before, or `UNASSIGNED_ID` while the
/// generators are not installed.
pub fn generate_id(id_type: IdType) -> i64 {
    id_from_draw(next_id(id_type.index()))
}

} // verus!
