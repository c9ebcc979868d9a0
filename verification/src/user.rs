//! Identity allocation: one fresh identifier and one generated display
//! name per accepted connection. Both come from outside sources of
//! randomness, so nothing is promised of their content beyond the
//! identifier's shape.

use vstd::prelude::*;

use crate::types::User;

verus! {

#[verifier::external_type_specification]
#[verifier::external_body]
pub struct ExRng(rnglib::RNG);

/// Relies on `uuid::Uuid::new_v4` and `Uuid`'s `Display`: a freshly
/// drawn random identifier rendered in its hyphenated form, which is 36
/// characters long. The value itself is random, so nothing more is
/// stated.
#[verifier::external_body]
fn fresh_identifier() -> (r: String)
    ensures
        r@.len() == 36,
{
    uuid::Uuid::new_v4().to_string()
}

/// Relies on `rnglib::RNG::new`, which builds a name generator from the
/// embedded Fantasy syllable set and reports an unusable set as an
/// error instead of handing it out.
#[verifier::external_body]
fn fantasy_generator() -> (r: Option<rnglib::RNG>) {
    match rnglib::RNG::new(&rnglib::Language::Fantasy) {
        Ok(g) => Some(g),
        Err(_) => None,
    }
}

/// Relies on `rnglib::RNG::generate_name_by_count`: a randomly drawn
/// pronounceable name of three syllables. The result is random, so
/// nothing is stated of it.
#[verifier::external_body]
fn generate_name(g: &rnglib::RNG) -> (r: String) {
    g.generate_name_by_count(3)
}

/// A new identity for an accepted connection: a fresh identifier — it
/// doubles as the roster key, so `id` and `uuid` carry the same value —
/// and a generated display name.
pub fn create_user() -> (u: User)
    ensures
        u@.id == u@.uuid,
        u@.id.len() == 36,
{
    let id = fresh_identifier();
    let screen_name = match fantasy_generator() {
        Some(g) => generate_name(&g),
        None => String::from_str("Wanderer"),
    };
    User { id: id.clone(), screen_name, uuid: id }
}

} // verus!
