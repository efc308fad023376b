//! The integer types that index the values of a dictionary-encoded array.
use vstd::prelude::*;

verus! {

/// An integer type that can hold the keys of a dictionary-encoded array.
#[derive(Clone, Copy, Debug, PartialEq, Eq, Structural)]
pub enum KeyType {
    Int8,
    Int16,
    Int32,
    Int64,
    UInt8,
    UInt16,
    UInt32,
    UInt64,
}

impl KeyType {
    /// The largest key of this type.
    pub open spec fn max_key(self) -> nat {
        match self {
            KeyType::Int8 => 0x7f,
            KeyType::Int16 => 0x7fff,
            KeyType::Int32 => 0x7fff_ffff,
            KeyType::Int64 => 0x7fff_ffff_ffff_ffff,
            KeyType::UInt8 => 0xff,
            KeyType::UInt16 => 0xffff,
            KeyType::UInt32 => 0xffff_ffff,
            KeyType::UInt64 => 0xffff_ffff_ffff_ffff,
        }
    }

    /// Keys of this type can number `num_values` values, from zero on.
    pub open spec fn fits(self, num_values: nat) -> bool {
        num_values == 0 || num_values - 1 <= self.max_key()
    }

    /// Whether keys of this type can number `num_values` distinct values.
    pub fn key_type_fits(self, num_values: usize) -> (fits: bool)
        ensures
            fits == self.fits(num_values as nat),
    {
        let max: u64 = match self {
            KeyType::Int8 => 0x7f,
            KeyType::Int16 => 0x7fff,
            KeyType::Int32 => 0x7fff_ffff,
            KeyType::Int64 => 0x7fff_ffff_ffff_ffff,
            KeyType::UInt8 => 0xff,
            KeyType::UInt16 => 0xffff,
            KeyType::UInt32 => 0xffff_ffff,
            KeyType::UInt64 => 0xffff_ffff_ffff_ffff,
        };
        num_values == 0 || (num_values - 1) as u64 <= max
    }
}

/// A type-level choice of [`KeyType`].
pub trait DictionaryKeyType {
    /// The key type that this choice stands for.
    spec fn key_type() -> KeyType;

    /// The key type that this choice stands for.
    fn data_type() -> (key_type: KeyType)
        ensures
            key_type == Self::key_type(),
    ;
}

/// Keys of type `i8`.
pub struct Int8Type;

/// Keys of type `i16`.
pub struct Int16Type;

/// Keys of type `i32`.
pub struct Int32Type;

/// Keys of type `i64`.
pub struct Int64Type;

/// Keys of type `u8`.
pub struct UInt8Type;

/// Keys of type `u16`.
pub struct UInt16Type;

/// Keys of type `u32`.
pub struct UInt32Type;

/// Keys of type `u64`.
pub struct UInt64Type;

impl DictionaryKeyType for Int8Type {
    open spec fn key_type() -> KeyType {
        KeyType::Int8
    }

    fn data_type() -> KeyType {
        KeyType::Int8
    }
}

impl DictionaryKeyType for Int16Type {
    open spec fn key_type() -> KeyType {
        KeyType::Int16
    }

    fn data_type() -> KeyType {
        KeyType::Int16
    }
}

impl DictionaryKeyType for Int32Type {
    open spec fn key_type() -> KeyType {
        KeyType::Int32
    }

    fn data_type() -> KeyType {
        KeyType::Int32
    }
}

impl DictionaryKeyType for Int64Type {
    open spec fn key_type() -> KeyType {
        KeyType::Int64
    }

    fn data_type() -> KeyType {
        KeyType::Int64
    }
}

impl DictionaryKeyType for UInt8Type {
    open spec fn key_type() -> KeyType {
        KeyType::UInt8
    }

    fn data_type() -> KeyType {
        KeyType::UInt8
    }
}

impl DictionaryKeyType for UInt16Type {
    open spec fn key_type() -> KeyType {
        KeyType::UInt16
    }

    fn data_type() -> KeyType {
        KeyType::UInt16
    }
}

impl DictionaryKeyType for UInt32Type {
    open spec fn key_type() -> KeyType {
        KeyType::UInt32
    }

    fn data_type() -> KeyType {
        KeyType::UInt32
    }
}

impl DictionaryKeyType for UInt64Type {
    open spec fn key_type() -> KeyType {
        KeyType::UInt64
    }

    fn data_type() -> KeyType {
        KeyType::UInt64
    }
}

/// Keys of a type of so many bits number two to that power of values, or half of them where
/// they have a sign.
pub proof fn law_keys_number_as_many_values_as_they_have(key_type: KeyType, num_values: usize, fits: bool)
    requires
        call_ensures(KeyType::key_type_fits, (key_type, num_values), fits),
    ensures
        fits == key_type.fits(num_values as nat),
        key_type is Int8 ==> (fits <==> num_values <= 128),
        key_type is UInt8 ==> (fits <==> num_values <= 256),
        key_type is Int16 ==> (fits <==> num_values <= 0x8000),
        key_type is UInt16 ==> (fits <==> num_values <= 0x1_0000),
        key_type is Int32 ==> (fits <==> num_values <= 0x8000_0000),
        key_type is UInt32 ==> (fits <==> num_values <= 0x1_0000_0000),
        key_type is Int64 ==> (fits <==> num_values <= 0x8000_0000_0000_0000),
        key_type is UInt64 ==> fits,
{
}

/// Keys that can number some values can number fewer.
pub proof fn law_fewer_values_fit(key_type: KeyType, fewer: nat, more: nat)
    requires
        fewer <= more,
        key_type.fits(more),
    ensures
        key_type.fits(fewer),
{
}

/// Each choice stands for the key type that it is named after.
pub proof fn law_choices_of_key_types(key_type: KeyType)
    ensures
        call_ensures(<Int8Type as DictionaryKeyType>::data_type, (), key_type) ==> key_type == KeyType::Int8,
        call_ensures(<Int16Type as DictionaryKeyType>::data_type, (), key_type) ==> key_type == KeyType::Int16,
        call_ensures(<Int32Type as DictionaryKeyType>::data_type, (), key_type) ==> key_type == KeyType::Int32,
        call_ensures(<Int64Type as DictionaryKeyType>::data_type, (), key_type) ==> key_type == KeyType::Int64,
        call_ensures(<UInt8Type as DictionaryKeyType>::data_type, (), key_type) ==> key_type == KeyType::UInt8,
        call_ensures(<UInt16Type as DictionaryKeyType>::data_type, (), key_type) ==> key_type == KeyType::UInt16,
        call_ensures(<UInt32Type as DictionaryKeyType>::data_type, (), key_type) ==> key_type == KeyType::UInt32,
        call_ensures(<UInt64Type as DictionaryKeyType>::data_type, (), key_type) ==> key_type == KeyType::UInt64,
{
}

} // verus!
