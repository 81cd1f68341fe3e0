//! Instruction encoding: one opcode, three operand type tags and one packed
//! immediate, laid out in a 64-bit word.

use vstd::prelude::*;

verus! {

/// The immediate operand of an instruction; slot indices have this type too.
pub type OpIndex = i32;

/// Number of distinct values of a byte.
pub const BYTE_SPAN: u64 = 0x100;

/// Number of distinct values of the 32-bit immediate.
pub const IMM_SPAN: u64 = 0x1_0000_0000;

/// Weight of the opcode byte inside the word.
pub const OP_UNIT: u64 = 0x0100_0000_0000_0000;

/// Weight of the first type tag inside the word.
pub const T0_UNIT: u64 = 0x0001_0000_0000_0000;

/// Weight of the second type tag inside the word.
pub const T1_UNIT: u64 = 0x0000_0100_0000_0000;

/// Weight of the third type tag inside the word.
pub const T2_UNIT: u64 = 0x0000_0001_0000_0000;

/// Number of distinct values of the 24-bit part of a split immediate.
pub const IMM24_SPAN: i64 = 0x100_0000;

/// The tag of a runtime value's kind, as carried by instructions. The five
/// flags reuse a tag slot for small enumerations instead of a type.
#[derive(Clone, Copy, Debug, PartialEq, Eq, Structural)]
pub enum ValueType {
    Zero,
    Bool,
    Int,
    Int8,
    Int16,
    Int32,
    Int64,
    Uint,
    Uint8,
    Uint16,
    Uint32,
    Uint64,
    Float32,
    Float64,
    Complex64,
    Function,
    Package,
    Metadata,
    Complex128,
    Str,
    Array,
    Pointer,
    Closure,
    Slice,
    GosMap,
    Interface,
    Struct,
    Channel,
    Named,
    FlagA,
    FlagB,
    FlagC,
    FlagD,
    FlagE,
}

impl ValueType {
    /// The byte that stands for this tag in an instruction; never zero.
    pub open spec fn spec_code(self) -> u8 {
        match self {
            ValueType::Zero => 1u8,
            ValueType::Bool => 2u8,
            ValueType::Int => 3u8,
            ValueType::Int8 => 4u8,
            ValueType::Int16 => 5u8,
            ValueType::Int32 => 6u8,
            ValueType::Int64 => 7u8,
            ValueType::Uint => 8u8,
            ValueType::Uint8 => 9u8,
            ValueType::Uint16 => 10u8,
            ValueType::Uint32 => 11u8,
            ValueType::Uint64 => 12u8,
            ValueType::Float32 => 13u8,
            ValueType::Float64 => 14u8,
            ValueType::Complex64 => 15u8,
            ValueType::Function => 16u8,
            ValueType::Package => 17u8,
            ValueType::Metadata => 18u8,
            ValueType::Complex128 => 19u8,
            ValueType::Str => 20u8,
            ValueType::Array => 21u8,
            ValueType::Pointer => 22u8,
            ValueType::Closure => 23u8,
            ValueType::Slice => 24u8,
            ValueType::GosMap => 25u8,
            ValueType::Interface => 26u8,
            ValueType::Struct => 27u8,
            ValueType::Channel => 28u8,
            ValueType::Named => 29u8,
            ValueType::FlagA => 30u8,
            ValueType::FlagB => 31u8,
            ValueType::FlagC => 32u8,
            ValueType::FlagD => 33u8,
            ValueType::FlagE => 34u8,
        }
    }

    /// The tag that a byte stands for, if any.
    pub open spec fn spec_from_code(c: u8) -> Option<ValueType> {
        if c == 1u8 {
            Some(ValueType::Zero)
        } else if c == 2u8 {
            Some(ValueType::Bool)
        } else if c == 3u8 {
            Some(ValueType::Int)
        } else if c == 4u8 {
            Some(ValueType::Int8)
        } else if c == 5u8 {
            Some(ValueType::Int16)
        } else if c == 6u8 {
            Some(ValueType::Int32)
        } else if c == 7u8 {
            Some(ValueType::Int64)
        } else if c == 8u8 {
            Some(ValueType::Uint)
        } else if c == 9u8 {
            Some(ValueType::Uint8)
        } else if c == 10u8 {
            Some(ValueType::Uint16)
        } else if c == 11u8 {
            Some(ValueType::Uint32)
        } else if c == 12u8 {
            Some(ValueType::Uint64)
        } else if c == 13u8 {
            Some(ValueType::Float32)
        } else if c == 14u8 {
            Some(ValueType::Float64)
        } else if c == 15u8 {
            Some(ValueType::Complex64)
        } else if c == 16u8 {
            Some(ValueType::Function)
        } else if c == 17u8 {
            Some(ValueType::Package)
        } else if c == 18u8 {
            Some(ValueType::Metadata)
        } else if c == 19u8 {
            Some(ValueType::Complex128)
        } else if c == 20u8 {
            Some(ValueType::Str)
        } else if c == 21u8 {
            Some(ValueType::Array)
        } else if c == 22u8 {
            Some(ValueType::Pointer)
        } else if c == 23u8 {
            Some(ValueType::Closure)
        } else if c == 24u8 {
            Some(ValueType::Slice)
        } else if c == 25u8 {
            Some(ValueType::GosMap)
        } else if c == 26u8 {
            Some(ValueType::Interface)
        } else if c == 27u8 {
            Some(ValueType::Struct)
        } else if c == 28u8 {
            Some(ValueType::Channel)
        } else if c == 29u8 {
            Some(ValueType::Named)
        } else if c == 30u8 {
            Some(ValueType::FlagA)
        } else if c == 31u8 {
            Some(ValueType::FlagB)
        } else if c == 32u8 {
            Some(ValueType::FlagC)
        } else if c == 33u8 {
            Some(ValueType::FlagD)
        } else if c == 34u8 {
            Some(ValueType::FlagE)
        } else {
            None
        }
    }

    #[verifier::when_used_as_spec(spec_code)]
    pub fn code(self) -> (c: u8)
        ensures
            c == self.spec_code(),
            1 <= c <= VALUE_TYPE_COUNT,
    {
        match self {
            ValueType::Zero => 1u8,
            ValueType::Bool => 2u8,
            ValueType::Int => 3u8,
            ValueType::Int8 => 4u8,
            ValueType::Int16 => 5u8,
            ValueType::Int32 => 6u8,
            ValueType::Int64 => 7u8,
            ValueType::Uint => 8u8,
            ValueType::Uint8 => 9u8,
            ValueType::Uint16 => 10u8,
            ValueType::Uint32 => 11u8,
            ValueType::Uint64 => 12u8,
            ValueType::Float32 => 13u8,
            ValueType::Float64 => 14u8,
            ValueType::Complex64 => 15u8,
            ValueType::Function => 16u8,
            ValueType::Package => 17u8,
            ValueType::Metadata => 18u8,
            ValueType::Complex128 => 19u8,
            ValueType::Str => 20u8,
            ValueType::Array => 21u8,
            ValueType::Pointer => 22u8,
            ValueType::Closure => 23u8,
            ValueType::Slice => 24u8,
            ValueType::GosMap => 25u8,
            ValueType::Interface => 26u8,
            ValueType::Struct => 27u8,
            ValueType::Channel => 28u8,
            ValueType::Named => 29u8,
            ValueType::FlagA => 30u8,
            ValueType::FlagB => 31u8,
            ValueType::FlagC => 32u8,
            ValueType::FlagD => 33u8,
            ValueType::FlagE => 34u8,
        }
    }

    #[verifier::when_used_as_spec(spec_from_code)]
    pub fn from_code(c: u8) -> (t: Option<ValueType>)
        ensures
            t == Self::spec_from_code(c),
            t is Some <==> 1 <= c <= VALUE_TYPE_COUNT,
            t matches Some(v) ==> v.spec_code() == c,
    {
        if c == 1u8 {
            Some(ValueType::Zero)
        } else if c == 2u8 {
            Some(ValueType::Bool)
        } else if c == 3u8 {
            Some(ValueType::Int)
        } else if c == 4u8 {
            Some(ValueType::Int8)
        } else if c == 5u8 {
            Some(ValueType::Int16)
        } else if c == 6u8 {
            Some(ValueType::Int32)
        } else if c == 7u8 {
            Some(ValueType::Int64)
        } else if c == 8u8 {
            Some(ValueType::Uint)
        } else if c == 9u8 {
            Some(ValueType::Uint8)
        } else if c == 10u8 {
            Some(ValueType::Uint16)
        } else if c == 11u8 {
            Some(ValueType::Uint32)
        } else if c == 12u8 {
            Some(ValueType::Uint64)
        } else if c == 13u8 {
            Some(ValueType::Float32)
        } else if c == 14u8 {
            Some(ValueType::Float64)
        } else if c == 15u8 {
            Some(ValueType::Complex64)
        } else if c == 16u8 {
            Some(ValueType::Function)
        } else if c == 17u8 {
            Some(ValueType::Package)
        } else if c == 18u8 {
            Some(ValueType::Metadata)
        } else if c == 19u8 {
            Some(ValueType::Complex128)
        } else if c == 20u8 {
            Some(ValueType::Str)
        } else if c == 21u8 {
            Some(ValueType::Array)
        } else if c == 22u8 {
            Some(ValueType::Pointer)
        } else if c == 23u8 {
            Some(ValueType::Closure)
        } else if c == 24u8 {
            Some(ValueType::Slice)
        } else if c == 25u8 {
            Some(ValueType::GosMap)
        } else if c == 26u8 {
            Some(ValueType::Interface)
        } else if c == 27u8 {
            Some(ValueType::Struct)
        } else if c == 28u8 {
            Some(ValueType::Channel)
        } else if c == 29u8 {
            Some(ValueType::Named)
        } else if c == 30u8 {
            Some(ValueType::FlagA)
        } else if c == 31u8 {
            Some(ValueType::FlagB)
        } else if c == 32u8 {
            Some(ValueType::FlagC)
        } else if c == 33u8 {
            Some(ValueType::FlagD)
        } else if c == 34u8 {
            Some(ValueType::FlagE)
        } else {
            None
        }
    }

    /// Decoding the byte of a tag gives the tag back.
    pub proof fn lemma_code_round_trip(self)
        ensures
            Self::spec_from_code(self.spec_code()) == Some(self),
    {
    }
}

/// Number of value type tags.
pub const VALUE_TYPE_COUNT: u8 = 34;

/// Number of opcodes.
pub const OPCODE_COUNT: i32 = 58;

/// The operations of the virtual machine.
#[allow(non_camel_case_types)]
#[derive(Clone, Copy, Debug, PartialEq, Eq, Structural)]
pub enum Opcode {
    PUSH_CONST,
    PUSH_NIL,
    PUSH_FALSE,
    PUSH_TRUE,
    PUSH_IMM,
    POP,
    LOAD_LOCAL,
    STORE_LOCAL,
    LOAD_UPVALUE,
    STORE_UPVALUE,
    LOAD_INDEX,
    STORE_INDEX,
    LOAD_INDEX_IMM,
    STORE_INDEX_IMM,
    LOAD_STRUCT_FIELD,
    STORE_STRUCT_FIELD,
    LOAD_PKG_FIELD,
    STORE_PKG_FIELD,
    STORE_DEREF,
    CAST,
    ADD,
    SUB,
    MUL,
    QUO,
    REM,
    AND,
    OR,
    XOR,
    AND_NOT,
    SHL,
    SHR,
    UNARY_ADD,
    UNARY_SUB,
    UNARY_XOR,
    NOT,
    EQL,
    LSS,
    GTR,
    NEQ,
    LEQ,
    GEQ,
    REF,
    DEREF,
    PRE_CALL,
    CALL,
    RETURN,
    JUMP,
    JUMP_IF,
    JUMP_IF_NOT,
    IMPORT,
    SLICE,
    LITERAL,
    NEW,
    MAKE,
    LEN,
    CAP,
    APPEND,
    ZERO,
}

impl Opcode {
    /// The index of this opcode, which is also its byte in an instruction.
    pub open spec fn spec_index(self) -> OpIndex {
        match self {
            Opcode::PUSH_CONST => 0i32,
            Opcode::PUSH_NIL => 1i32,
            Opcode::PUSH_FALSE => 2i32,
            Opcode::PUSH_TRUE => 3i32,
            Opcode::PUSH_IMM => 4i32,
            Opcode::POP => 5i32,
            Opcode::LOAD_LOCAL => 6i32,
            Opcode::STORE_LOCAL => 7i32,
            Opcode::LOAD_UPVALUE => 8i32,
            Opcode::STORE_UPVALUE => 9i32,
            Opcode::LOAD_INDEX => 10i32,
            Opcode::STORE_INDEX => 11i32,
            Opcode::LOAD_INDEX_IMM => 12i32,
            Opcode::STORE_INDEX_IMM => 13i32,
            Opcode::LOAD_STRUCT_FIELD => 14i32,
            Opcode::STORE_STRUCT_FIELD => 15i32,
            Opcode::LOAD_PKG_FIELD => 16i32,
            Opcode::STORE_PKG_FIELD => 17i32,
            Opcode::STORE_DEREF => 18i32,
            Opcode::CAST => 19i32,
            Opcode::ADD => 20i32,
            Opcode::SUB => 21i32,
            Opcode::MUL => 22i32,
            Opcode::QUO => 23i32,
            Opcode::REM => 24i32,
            Opcode::AND => 25i32,
            Opcode::OR => 26i32,
            Opcode::XOR => 27i32,
            Opcode::AND_NOT => 28i32,
            Opcode::SHL => 29i32,
            Opcode::SHR => 30i32,
            Opcode::UNARY_ADD => 31i32,
            Opcode::UNARY_SUB => 32i32,
            Opcode::UNARY_XOR => 33i32,
            Opcode::NOT => 34i32,
            Opcode::EQL => 35i32,
            Opcode::LSS => 36i32,
            Opcode::GTR => 37i32,
            Opcode::NEQ => 38i32,
            Opcode::LEQ => 39i32,
            Opcode::GEQ => 40i32,
            Opcode::REF => 41i32,
            Opcode::DEREF => 42i32,
            Opcode::PRE_CALL => 43i32,
            Opcode::CALL => 44i32,
            Opcode::RETURN => 45i32,
            Opcode::JUMP => 46i32,
            Opcode::JUMP_IF => 47i32,
            Opcode::JUMP_IF_NOT => 48i32,
            Opcode::IMPORT => 49i32,
            Opcode::SLICE => 50i32,
            Opcode::LITERAL => 51i32,
            Opcode::NEW => 52i32,
            Opcode::MAKE => 53i32,
            Opcode::LEN => 54i32,
            Opcode::CAP => 55i32,
            Opcode::APPEND => 56i32,
            Opcode::ZERO => 57i32,
        }
    }

    /// The opcode with the given index, if any.
    pub open spec fn spec_from_index(i: OpIndex) -> Option<Opcode> {
        if i == 0i32 {
            Some(Opcode::PUSH_CONST)
        } else if i == 1i32 {
            Some(Opcode::PUSH_NIL)
        } else if i == 2i32 {
            Some(Opcode::PUSH_FALSE)
        } else if i == 3i32 {
            Some(Opcode::PUSH_TRUE)
        } else if i == 4i32 {
            Some(Opcode::PUSH_IMM)
        } else if i == 5i32 {
            Some(Opcode::POP)
        } else if i == 6i32 {
            Some(Opcode::LOAD_LOCAL)
        } else if i == 7i32 {
            Some(Opcode::STORE_LOCAL)
        } else if i == 8i32 {
            Some(Opcode::LOAD_UPVALUE)
        } else if i == 9i32 {
            Some(Opcode::STORE_UPVALUE)
        } else if i == 10i32 {
            Some(Opcode::LOAD_INDEX)
        } else if i == 11i32 {
            Some(Opcode::STORE_INDEX)
        } else if i == 12i32 {
            Some(Opcode::LOAD_INDEX_IMM)
        } else if i == 13i32 {
            Some(Opcode::STORE_INDEX_IMM)
        } else if i == 14i32 {
            Some(Opcode::LOAD_STRUCT_FIELD)
        } else if i == 15i32 {
            Some(Opcode::STORE_STRUCT_FIELD)
        } else if i == 16i32 {
            Some(Opcode::LOAD_PKG_FIELD)
        } else if i == 17i32 {
            Some(Opcode::STORE_PKG_FIELD)
        } else if i == 18i32 {
            Some(Opcode::STORE_DEREF)
        } else if i == 19i32 {
            Some(Opcode::CAST)
        } else if i == 20i32 {
            Some(Opcode::ADD)
        } else if i == 21i32 {
            Some(Opcode::SUB)
        } else if i == 22i32 {
            Some(Opcode::MUL)
        } else if i == 23i32 {
            Some(Opcode::QUO)
        } else if i == 24i32 {
            Some(Opcode::REM)
        } else if i == 25i32 {
            Some(Opcode::AND)
        } else if i == 26i32 {
            Some(Opcode::OR)
        } else if i == 27i32 {
            Some(Opcode::XOR)
        } else if i == 28i32 {
            Some(Opcode::AND_NOT)
        } else if i == 29i32 {
            Some(Opcode::SHL)
        } else if i == 30i32 {
            Some(Opcode::SHR)
        } else if i == 31i32 {
            Some(Opcode::UNARY_ADD)
        } else if i == 32i32 {
            Some(Opcode::UNARY_SUB)
        } else if i == 33i32 {
            Some(Opcode::UNARY_XOR)
        } else if i == 34i32 {
            Some(Opcode::NOT)
        } else if i == 35i32 {
            Some(Opcode::EQL)
        } else if i == 36i32 {
            Some(Opcode::LSS)
        } else if i == 37i32 {
            Some(Opcode::GTR)
        } else if i == 38i32 {
            Some(Opcode::NEQ)
        } else if i == 39i32 {
            Some(Opcode::LEQ)
        } else if i == 40i32 {
            Some(Opcode::GEQ)
        } else if i == 41i32 {
            Some(Opcode::REF)
        } else if i == 42i32 {
            Some(Opcode::DEREF)
        } else if i == 43i32 {
            Some(Opcode::PRE_CALL)
        } else if i == 44i32 {
            Some(Opcode::CALL)
        } else if i == 45i32 {
            Some(Opcode::RETURN)
        } else if i == 46i32 {
            Some(Opcode::JUMP)
        } else if i == 47i32 {
            Some(Opcode::JUMP_IF)
        } else if i == 48i32 {
            Some(Opcode::JUMP_IF_NOT)
        } else if i == 49i32 {
            Some(Opcode::IMPORT)
        } else if i == 50i32 {
            Some(Opcode::SLICE)
        } else if i == 51i32 {
            Some(Opcode::LITERAL)
        } else if i == 52i32 {
            Some(Opcode::NEW)
        } else if i == 53i32 {
            Some(Opcode::MAKE)
        } else if i == 54i32 {
            Some(Opcode::LEN)
        } else if i == 55i32 {
            Some(Opcode::CAP)
        } else if i == 56i32 {
            Some(Opcode::APPEND)
        } else if i == 57i32 {
            Some(Opcode::ZERO)
        } else {
            None
        }
    }

    /// Decoding the index of an opcode gives the opcode back.
    pub proof fn lemma_index_round_trip(self)
        ensures
            Self::spec_from_index(self.spec_index()) == Some(self),
    {
    }
}
/// The byte of an optional type tag: zero where the tag is absent.
pub open spec fn spec_tag(t: Option<ValueType>) -> u8 {
    match t {
        Some(v) => v.spec_code(),
        None => 0u8,
    }
}

/// The low 32 bits that stand for a signed immediate (two's complement).
pub open spec fn spec_imm_low(imm: OpIndex) -> u64 {
    if imm >= 0 {
        imm as u64
    } else {
        (imm + IMM_SPAN) as u64
    }
}

/// The signed immediate that 32 low bits stand for.
pub open spec fn spec_imm_of_low(low: u64) -> OpIndex
    recommends
        low < IMM_SPAN,
{
    if low < 0x8000_0000 {
        low as OpIndex
    } else {
        (low - IMM_SPAN) as OpIndex
    }
}

/// Whether a value fits the signed 8-bit half of a split immediate.
pub open spec fn fits_imm8(i: OpIndex) -> bool {
    -0x80 <= i < 0x80
}

/// Whether a value fits the signed 24-bit half of a split immediate.
pub open spec fn fits_imm24(i: OpIndex) -> bool {
    -0x80_0000 <= i < 0x80_0000
}

/// The immediate that carries an 8-bit value in its top byte and a 24-bit
/// value below it, both in two's complement.
pub open spec fn spec_pack824(imm0: OpIndex, imm1: OpIndex) -> OpIndex
    recommends
        fits_imm8(imm0),
        fits_imm24(imm1),
{
    (imm0 * IMM24_SPAN + if imm1 >= 0 {
        imm1 as int
    } else {
        imm1 + IMM24_SPAN
    }) as OpIndex
}

/// The two halves of a split immediate.
pub open spec fn spec_unpack824(imm: OpIndex) -> (OpIndex, OpIndex) {
    let low = imm as int % (IMM24_SPAN as int);
    let high = imm as int / (IMM24_SPAN as int);
    (
        high as OpIndex,
        if low < 0x80_0000 {
            low as OpIndex
        } else {
            (low - IMM24_SPAN) as OpIndex
        },
    )
}

/// The byte that stores a signed 8-bit index in a tag slot.
pub open spec fn spec_index_byte(index: i8) -> u8 {
    if index >= 0 {
        index as u8
    } else {
        (index + BYTE_SPAN) as u8
    }
}

/// The signed 8-bit index that a tag slot holds.
pub open spec fn spec_byte_index(b: u8) -> OpIndex {
    if b < 0x80 {
        b as OpIndex
    } else {
        (b - BYTE_SPAN) as OpIndex
    }
}

/// A word is the sum of its five fields, each at its weight.
pub proof fn lemma_word_split(u: u64)
    ensures
        (u / OP_UNIT) * OP_UNIT + ((u / T0_UNIT) % BYTE_SPAN) * T0_UNIT + ((u / T1_UNIT)
            % BYTE_SPAN) * T1_UNIT + ((u / T2_UNIT) % BYTE_SPAN) * T2_UNIT + u % IMM_SPAN == u,
        u / OP_UNIT < BYTE_SPAN,
        u % IMM_SPAN < IMM_SPAN,
{
    let x = u as int;
    let low = x % 0x1_0000_0000;
    let q32 = x / 0x1_0000_0000;
    vstd::arithmetic::div_mod::lemma_fundamental_div_mod(x, 0x1_0000_0000);
    vstd::arithmetic::div_mod::lemma_mod_pos_bound(x, 0x1_0000_0000);
    let d = q32 % 0x100;
    let q40 = q32 / 0x100;
    vstd::arithmetic::div_mod::lemma_fundamental_div_mod_converse(
        x,
        0x100_0000_0000,
        q40,
        d * 0x1_0000_0000 + low,
    );
    let c = q40 % 0x100;
    let q48 = q40 / 0x100;
    vstd::arithmetic::div_mod::lemma_fundamental_div_mod_converse(
        x,
        0x1_0000_0000_0000,
        q48,
        c * 0x100_0000_0000 + d * 0x1_0000_0000 + low,
    );
    let b = q48 % 0x100;
    let q56 = q48 / 0x100;
    vstd::arithmetic::div_mod::lemma_fundamental_div_mod_converse(
        x,
        0x100_0000_0000_0000,
        q56,
        b * 0x1_0000_0000_0000 + c * 0x100_0000_0000 + d * 0x1_0000_0000 + low,
    );
}

/// The fields of a word that was put together from five fields are those
/// fields.
pub proof fn lemma_word_join(a: u8, b: u8, c: u8, d: u8, low: u64)
    requires
        low < IMM_SPAN,
    ensures
        ({
            let w = a * OP_UNIT + b * T0_UNIT + c * T1_UNIT + d * T2_UNIT + low;
            &&& w <= u64::MAX
            &&& w / (OP_UNIT as int) == a
            &&& (w / (T0_UNIT as int)) % (BYTE_SPAN as int) == b
            &&& (w / (T1_UNIT as int)) % (BYTE_SPAN as int) == c
            &&& (w / (T2_UNIT as int)) % (BYTE_SPAN as int) == d
            &&& w % (IMM_SPAN as int) == low
        }),
{
    let w = a * OP_UNIT + b * T0_UNIT + c * T1_UNIT + d * T2_UNIT + low;
    vstd::arithmetic::div_mod::lemma_fundamental_div_mod_converse(
        w,
        0x1_0000_0000,
        a * 0x100_0000 + b * 0x1_0000 + c * 0x100 + d,
        low as int,
    );
    vstd::arithmetic::div_mod::lemma_fundamental_div_mod_converse(
        w,
        0x100_0000_0000,
        a * 0x1_0000 + b * 0x100 + c,
        d * 0x1_0000_0000 + low,
    );
    vstd::arithmetic::div_mod::lemma_fundamental_div_mod_converse(
        w,
        0x1_0000_0000_0000,
        a * 0x100 + b,
        c * 0x100_0000_0000 + d * 0x1_0000_0000 + low,
    );
    vstd::arithmetic::div_mod::lemma_fundamental_div_mod_converse(
        w,
        0x100_0000_0000_0000,
        a as int,
        b * 0x1_0000_0000_0000 + c * 0x100_0000_0000 + d * 0x1_0000_0000 + low,
    );
}

/// One instruction: an opcode byte, three tag bytes and a signed 32-bit
/// immediate. `to_u64` gives the 64-bit word that stands for it; a raw word
/// (an arena key that follows an instruction) is held in the same form.
#[derive(Clone, Copy, Debug, PartialEq, Eq, Structural)]
pub struct Instruction {
    pub op: u8,
    pub t0: u8,
    pub t1: u8,
    pub t2: u8,
    pub imm: OpIndex,
}

impl Instruction {
    /// The instruction made of an opcode, the tags that are present and the
    /// immediate (zero where it is absent).
    pub open spec fn spec_new(
        op: Opcode,
        type0: Option<ValueType>,
        type1: Option<ValueType>,
        type2: Option<ValueType>,
        imm: Option<OpIndex>,
    ) -> Instruction {
        Instruction {
            op: op.spec_index() as u8,
            t0: spec_tag(type0),
            t1: spec_tag(type1),
            t2: spec_tag(type2),
            imm: match imm {
                Some(i) => i,
                None => 0i32,
            },
        }
    }

    /// The 64-bit word: opcode in the top byte, then the three tags, then
    /// the immediate in the low 32 bits.
    pub open spec fn spec_to_u64(&self) -> u64 {
        (self.op * OP_UNIT + self.t0 * T0_UNIT + self.t1 * T1_UNIT + self.t2 * T2_UNIT
            + spec_imm_low(self.imm)) as u64
    }

    /// The instruction that a 64-bit word stands for.
    pub open spec fn spec_from_u64(u: u64) -> Instruction {
        Instruction {
            op: (u / OP_UNIT) as u8,
            t0: ((u / T0_UNIT) % BYTE_SPAN) as u8,
            t1: ((u / T1_UNIT) % BYTE_SPAN) as u8,
            t2: ((u / T2_UNIT) % BYTE_SPAN) as u8,
            imm: spec_imm_of_low(u % IMM_SPAN),
        }
    }

    /// The opcode, where the opcode byte holds one.
    pub open spec fn spec_op(&self) -> Option<Opcode> {
        Opcode::spec_from_index(self.op as OpIndex)
    }

    #[verifier::when_used_as_spec(spec_new)]
    pub fn new(
        op: Opcode,
        type0: Option<ValueType>,
        type1: Option<ValueType>,
        type2: Option<ValueType>,
        imm: Option<OpIndex>,
    ) -> (inst: Instruction)
        ensures
            inst == Self::spec_new(op, type0, type1, type2, imm),
            inst.spec_op() == Some(op),
            ValueType::spec_from_code(inst.t0) == type0,
            ValueType::spec_from_code(inst.t1) == type1,
            ValueType::spec_from_code(inst.t2) == type2,
    {
        let index = Self::code2index(op);
        Instruction {
            op: index as u8,
            t0: tag_byte(type0),
            t1: tag_byte(type1),
            t2: tag_byte(type2),
            imm: match imm {
                Some(i) => i,
                None => 0i32,
            },
        }
    }

    #[verifier::when_used_as_spec(spec_to_u64)]
    pub fn to_u64(&self) -> (u: u64)
        ensures
            u == self.spec_to_u64(),
            Self::spec_from_u64(u) == *self,
    {
        let low: u64 = if self.imm >= 0 {
            self.imm as u64
        } else {
            (self.imm as i64 + 0x1_0000_0000i64) as u64
        };
        proof {
            lemma_word_join(self.op, self.t0, self.t1, self.t2, low);
        }
        (self.op as u64) * OP_UNIT + (self.t0 as u64) * T0_UNIT + (self.t1 as u64) * T1_UNIT + (
        self.t2 as u64) * T2_UNIT + low
    }

    #[verifier::when_used_as_spec(spec_from_u64)]
    pub fn from_u64(u: u64) -> (inst: Instruction)
        ensures
            inst == Self::spec_from_u64(u),
            inst.spec_to_u64() == u,
    {
        proof {
            lemma_word_split(u);
        }
        let low: u64 = u % IMM_SPAN;
        let imm: OpIndex = if low < 0x8000_0000 {
            low as i32
        } else {
            (low as i64 - 0x1_0000_0000i64) as i32
        };
        Instruction {
            op: (u / OP_UNIT) as u8,
            t0: ((u / T0_UNIT) % BYTE_SPAN) as u8,
            t1: ((u / T1_UNIT) % BYTE_SPAN) as u8,
            t2: ((u / T2_UNIT) % BYTE_SPAN) as u8,
            imm,
        }
    }

    /// The opcode; `None` for a raw word whose top byte is no opcode.
    #[verifier::when_used_as_spec(spec_op)]
    pub fn op(&self) -> (op: Option<Opcode>)
        ensures
            op == self.spec_op(),
    {
        Self::index2code(self.op as OpIndex)
    }

    /// The first type tag, where present.
    pub fn t0(&self) -> (t: Option<ValueType>)
        ensures
            t == ValueType::spec_from_code(self.t0),
    {
        ValueType::from_code(self.t0)
    }

    /// The second type tag, where present.
    pub fn t1(&self) -> (t: Option<ValueType>)
        ensures
            t == ValueType::spec_from_code(self.t1),
    {
        ValueType::from_code(self.t1)
    }

    /// The third type tag, where present.
    pub fn t2(&self) -> (t: Option<ValueType>)
        ensures
            t == ValueType::spec_from_code(self.t2),
    {
        ValueType::from_code(self.t2)
    }

    /// The signed 8-bit index held in the third tag slot.
    pub fn t2_as_index(&self) -> (i: OpIndex)
        ensures
            i == spec_byte_index(self.t2),
            fits_imm8(i),
    {
        if self.t2 < 0x80 {
            self.t2 as i32
        } else {
            self.t2 as i32 - 0x100
        }
    }

    /// The immediate.
    pub fn imm(&self) -> (i: OpIndex)
        ensures
            i == self.imm,
    {
        self.imm
    }

    /// The two halves of a split immediate.
    pub fn imm824(&self) -> (r: (OpIndex, OpIndex))
        ensures
            r == spec_unpack824(self.imm),
            fits_imm8(r.0),
            fits_imm24(r.1),
    {
        let wide: i64 = self.imm as i64 + 0x8000_0000i64;
        let high: i64 = wide / IMM24_SPAN;
        let low: i64 = wide % IMM24_SPAN;
        assert(self.imm as int == (high - 0x80) * IMM24_SPAN + low);
        assert(self.imm as int / (IMM24_SPAN as int) == high - 0x80 && self.imm as int % (
        IMM24_SPAN as int) == low) by {
            vstd::arithmetic::div_mod::lemma_fundamental_div_mod_converse(
                self.imm as int,
                IMM24_SPAN as int,
                high - 0x80,
                low as int,
            );
        }
        let second: i64 = if low < 0x80_0000 {
            low
        } else {
            low - IMM24_SPAN
        };
        ((high - 0x80) as i32, second as i32)
    }

    /// Replaces the immediate and keeps the rest.
    pub fn set_imm(&mut self, imm: OpIndex)
        ensures
            *final(self) == (Instruction { imm, ..*old(self) }),
    {
        self.imm = imm;
    }

    /// Stores an 8-bit and a 24-bit immediate in the place of the immediate.
    pub fn set_imm824(&mut self, imm0: OpIndex, imm1: OpIndex)
        requires
            fits_imm8(imm0),
            fits_imm24(imm1),
        ensures
            *final(self) == (Instruction { imm: spec_pack824(imm0, imm1), ..*old(self) }),
            spec_unpack824(final(self).imm) == (imm0, imm1),
    {
        let low: i64 = if imm1 >= 0 {
            imm1 as i64
        } else {
            imm1 as i64 + IMM24_SPAN
        };
        let packed: i64 = imm0 as i64 * IMM24_SPAN + low;
        proof {
            vstd::arithmetic::div_mod::lemma_fundamental_div_mod_converse(
                packed as int,
                IMM24_SPAN as int,
                imm0 as int,
                low as int,
            );
        }
        self.imm = packed as i32;
    }

    /// Stores a signed 8-bit index in the third tag slot.
    pub fn set_t2_with_index(&mut self, index: i8)
        ensures
            *final(self) == (Instruction { t2: spec_index_byte(index), ..*old(self) }),
            spec_byte_index(final(self).t2) == index,
    {
        self.t2 = if index >= 0 {
            index as u8
        } else {
            (index as i16 + 0x100i16) as u8
        };
    }

    /// The index of an opcode, small enough for the 8-bit half of a split
    /// immediate.
    pub fn code2index(op: Opcode) -> (i: OpIndex)
        ensures
            i == op.spec_index(),
            0 <= i < OPCODE_COUNT,
    {
        match op {
            Opcode::PUSH_CONST => 0i32,
            Opcode::PUSH_NIL => 1i32,
            Opcode::PUSH_FALSE => 2i32,
            Opcode::PUSH_TRUE => 3i32,
            Opcode::PUSH_IMM => 4i32,
            Opcode::POP => 5i32,
            Opcode::LOAD_LOCAL => 6i32,
            Opcode::STORE_LOCAL => 7i32,
            Opcode::LOAD_UPVALUE => 8i32,
            Opcode::STORE_UPVALUE => 9i32,
            Opcode::LOAD_INDEX => 10i32,
            Opcode::STORE_INDEX => 11i32,
            Opcode::LOAD_INDEX_IMM => 12i32,
            Opcode::STORE_INDEX_IMM => 13i32,
            Opcode::LOAD_STRUCT_FIELD => 14i32,
            Opcode::STORE_STRUCT_FIELD => 15i32,
            Opcode::LOAD_PKG_FIELD => 16i32,
            Opcode::STORE_PKG_FIELD => 17i32,
            Opcode::STORE_DEREF => 18i32,
            Opcode::CAST => 19i32,
            Opcode::ADD => 20i32,
            Opcode::SUB => 21i32,
            Opcode::MUL => 22i32,
            Opcode::QUO => 23i32,
            Opcode::REM => 24i32,
            Opcode::AND => 25i32,
            Opcode::OR => 26i32,
            Opcode::XOR => 27i32,
            Opcode::AND_NOT => 28i32,
            Opcode::SHL => 29i32,
            Opcode::SHR => 30i32,
            Opcode::UNARY_ADD => 31i32,
            Opcode::UNARY_SUB => 32i32,
            Opcode::UNARY_XOR => 33i32,
            Opcode::NOT => 34i32,
            Opcode::EQL => 35i32,
            Opcode::LSS => 36i32,
            Opcode::GTR => 37i32,
            Opcode::NEQ => 38i32,
            Opcode::LEQ => 39i32,
            Opcode::GEQ => 40i32,
            Opcode::REF => 41i32,
            Opcode::DEREF => 42i32,
            Opcode::PRE_CALL => 43i32,
            Opcode::CALL => 44i32,
            Opcode::RETURN => 45i32,
            Opcode::JUMP => 46i32,
            Opcode::JUMP_IF => 47i32,
            Opcode::JUMP_IF_NOT => 48i32,
            Opcode::IMPORT => 49i32,
            Opcode::SLICE => 50i32,
            Opcode::LITERAL => 51i32,
            Opcode::NEW => 52i32,
            Opcode::MAKE => 53i32,
            Opcode::LEN => 54i32,
            Opcode::CAP => 55i32,
            Opcode::APPEND => 56i32,
            Opcode::ZERO => 57i32,
        }
    }

    /// The opcode that an index stands for; `None` where there is none.
    pub fn index2code(i: OpIndex) -> (op: Option<Opcode>)
        ensures
            op == Opcode::spec_from_index(i),
            op is Some <==> 0 <= i < OPCODE_COUNT,
            op matches Some(o) ==> o.spec_index() == i,
    {
        if i == 0i32 {
            Some(Opcode::PUSH_CONST)
        } else if i == 1i32 {
            Some(Opcode::PUSH_NIL)
        } else if i == 2i32 {
            Some(Opcode::PUSH_FALSE)
        } else if i == 3i32 {
            Some(Opcode::PUSH_TRUE)
        } else if i == 4i32 {
            Some(Opcode::PUSH_IMM)
        } else if i == 5i32 {
            Some(Opcode::POP)
        } else if i == 6i32 {
            Some(Opcode::LOAD_LOCAL)
        } else if i == 7i32 {
            Some(Opcode::STORE_LOCAL)
        } else if i == 8i32 {
            Some(Opcode::LOAD_UPVALUE)
        } else if i == 9i32 {
            Some(Opcode::STORE_UPVALUE)
        } else if i == 10i32 {
            Some(Opcode::LOAD_INDEX)
        } else if i == 11i32 {
            Some(Opcode::STORE_INDEX)
        } else if i == 12i32 {
            Some(Opcode::LOAD_INDEX_IMM)
        } else if i == 13i32 {
            Some(Opcode::STORE_INDEX_IMM)
        } else if i == 14i32 {
            Some(Opcode::LOAD_STRUCT_FIELD)
        } else if i == 15i32 {
            Some(Opcode::STORE_STRUCT_FIELD)
        } else if i == 16i32 {
            Some(Opcode::LOAD_PKG_FIELD)
        } else if i == 17i32 {
            Some(Opcode::STORE_PKG_FIELD)
        } else if i == 18i32 {
            Some(Opcode::STORE_DEREF)
        } else if i == 19i32 {
            Some(Opcode::CAST)
        } else if i == 20i32 {
            Some(Opcode::ADD)
        } else if i == 21i32 {
            Some(Opcode::SUB)
        } else if i == 22i32 {
            Some(Opcode::MUL)
        } else if i == 23i32 {
            Some(Opcode::QUO)
        } else if i == 24i32 {
            Some(Opcode::REM)
        } else if i == 25i32 {
            Some(Opcode::AND)
        } else if i == 26i32 {
            Some(Opcode::OR)
        } else if i == 27i32 {
            Some(Opcode::XOR)
        } else if i == 28i32 {
            Some(Opcode::AND_NOT)
        } else if i == 29i32 {
            Some(Opcode::SHL)
        } else if i == 30i32 {
            Some(Opcode::SHR)
        } else if i == 31i32 {
            Some(Opcode::UNARY_ADD)
        } else if i == 32i32 {
            Some(Opcode::UNARY_SUB)
        } else if i == 33i32 {
            Some(Opcode::UNARY_XOR)
        } else if i == 34i32 {
            Some(Opcode::NOT)
        } else if i == 35i32 {
            Some(Opcode::EQL)
        } else if i == 36i32 {
            Some(Opcode::LSS)
        } else if i == 37i32 {
            Some(Opcode::GTR)
        } else if i == 38i32 {
            Some(Opcode::NEQ)
        } else if i == 39i32 {
            Some(Opcode::LEQ)
        } else if i == 40i32 {
            Some(Opcode::GEQ)
        } else if i == 41i32 {
            Some(Opcode::REF)
        } else if i == 42i32 {
            Some(Opcode::DEREF)
        } else if i == 43i32 {
            Some(Opcode::PRE_CALL)
        } else if i == 44i32 {
            Some(Opcode::CALL)
        } else if i == 45i32 {
            Some(Opcode::RETURN)
        } else if i == 46i32 {
            Some(Opcode::JUMP)
        } else if i == 47i32 {
            Some(Opcode::JUMP_IF)
        } else if i == 48i32 {
            Some(Opcode::JUMP_IF_NOT)
        } else if i == 49i32 {
            Some(Opcode::IMPORT)
        } else if i == 50i32 {
            Some(Opcode::SLICE)
        } else if i == 51i32 {
            Some(Opcode::LITERAL)
        } else if i == 52i32 {
            Some(Opcode::NEW)
        } else if i == 53i32 {
            Some(Opcode::MAKE)
        } else if i == 54i32 {
            Some(Opcode::LEN)
        } else if i == 55i32 {
            Some(Opcode::CAP)
        } else if i == 56i32 {
            Some(Opcode::APPEND)
        } else if i == 57i32 {
            Some(Opcode::ZERO)
        } else {
            None
        }
    }
}

/// The byte of an optional type tag.
#[verifier::when_used_as_spec(spec_tag)]
pub fn tag_byte(t: Option<ValueType>) -> (b: u8)
    ensures
        b == spec_tag(t),
        ValueType::spec_from_code(b) == t,
{
    match t {
        Some(v) => v.code(),
        None => 0u8,
    }
}

} // verus!
