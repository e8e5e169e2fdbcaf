//! Just-in-time expression compiler front end: typed values, symbol tables,
//! a flat analysis tree with bidirectional type inference, a slab of runtime
//! storage slots, and a lowering of analyzed expressions into a small SSA-style
//! instruction stream that a JIT backend turns into native code.

pub mod analysis;
pub mod ast;
pub mod ast_util;
pub mod binding;
pub mod codegen;
pub mod slab;
pub mod table;
pub mod errors;
pub mod float_bits;
pub mod ir;
pub mod value;
pub mod value_type;

pub use value_type::ValueType;
