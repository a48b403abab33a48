use vstd::prelude::*;

verus! {

/// A value of the embedding shell's stream, reduced to what the length
/// filter reads: a text value carries its UTF-8 bytes; any other value
/// only the fact that it is not text.
pub enum PluginValue {
    Text(Vec<u8>),
    Other,
}

/// Why the length filter refused a value.
#[derive(Clone, Copy, Debug, PartialEq, Eq, Structural)]
pub enum FilterError {
    /// The stream handed the filter something that is not text.
    NotText,
}

/// The length filter the embedding shell can run over its stream: it maps
/// each text value to the count of its bytes.
pub struct Len;

impl Len {
    /// A fresh filter; it keeps no state.
    pub fn new() -> Len {
        Len
    }

    /// The byte count of a text value, as the signed 64-bit number the
    /// shell's stream carries; a value that is not text is refused.
    pub fn len(&mut self, value: &PluginValue) -> (r: Result<i64, FilterError>)
        ensures
            match value {
                PluginValue::Text(b) => r == Ok::<i64, FilterError>(b@.len() as i64),
                PluginValue::Other => r == Err::<i64, FilterError>(FilterError::NotText),
            },
    {
        match value {
            PluginValue::Text(b) => Ok(#[verifier::truncate] (b.len() as i64)),
            PluginValue::Other => Err(FilterError::NotText),
        }
    }
}

} // verus!
