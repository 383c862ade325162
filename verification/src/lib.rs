//! Passphrases out of dictionary words, as a policy asks for them.
//!
//! A [`Settings`] value is a policy: how many words of which lengths, how
//! they are cased and joined, and what digits and symbols stand around
//! them. It is built from the default policy or a [`Preset`] by the calls of
//! [`Builder`], each of which checks what it is given. [`Randomizer`] draws
//! the parts of a passphrase for a policy, and [`gen_passwd`] puts them
//! together. [`load_dict`] reads the words from a dictionary, and an
//! [`Xkpasswd`] makes passphrases out of the words of one.
//!
//! Whatever is drawn comes from the `rand` crate. What a function returns is
//! therefore not fixed by what it is given, and the contract of such a
//! function states what holds of every passphrase, word or block that it
//! can return. The functions that work on what was drawn have contracts that
//! fix their results.

pub mod casing;
pub mod dict;
pub mod padding;
pub mod policy;
mod random;
pub mod randomizer;
pub mod sampling;
pub mod settings;
pub mod transform;
pub mod xkpasswd;

pub use casing::transform_word;
pub use dict::{collect_pool, load_dict};
pub use policy::{Builder, PaddingResult, PaddingStrategy, Preset, Randomizer, SettingsError};
pub use settings::{custom_settings, Settings};
pub use transform::{from_flag, has_flag, FieldSize, WordTransform};
pub use xkpasswd::{gen_passwd, Xkpasswd};
