use vstd::prelude::*;

verus! {

/// Lets `hashbrown::HashMap` stand in signatures and fields. Verus sees
/// nothing inside a value of it; the modules that use one name its
/// contents and give each method they call a wrapper.
#[verifier::external_type_specification]
#[verifier::external_body]
#[verifier::reject_recursive_types(K)]
#[verifier::reject_recursive_types(V)]
#[verifier::reject_recursive_types(S)]
pub struct ExHashbrownMap<K, V, S>(hashbrown::HashMap<K, V, S>);

/// Lets `hashbrown::HashSet` stand in signatures and fields, opaque in the
/// same way.
#[verifier::external_type_specification]
#[verifier::external_body]
#[verifier::reject_recursive_types(T)]
#[verifier::reject_recursive_types(S)]
pub struct ExHashbrownSet<T, S>(hashbrown::HashSet<T, S>);

/// Lets the hash builder that `hashbrown::HashMap` uses by default stand in
/// types; Verus sees nothing inside it.
#[verifier::external_type_specification]
#[verifier::external_body]
pub struct ExDefaultHashBuilder(hashbrown::hash_map::DefaultHashBuilder);

} // verus!
