pub mod affix;
pub mod argument;
pub mod argument_alloc;
pub mod key_value;

pub use affix::{affixed_text, AffixPair, AffixedString};
pub use argument::{base_argument_text, Argument, Formatting};
pub use argument_alloc::{argument_list_text, ArgumentList};
pub use key_value::{Key, KeyValuePair, Value};
