use vstd::prelude::*;

verus! {

/// The name of the validation layer that debug builds run under.
pub const VALIDATION_LAYER: &'static str = "VK_LAYER_KHRONOS_validation";

/// The layers the engine requires, as a list of names: the validation layer
/// when `debug` is set, none otherwise.
pub open spec fn required_layers(debug: bool) -> Seq<Seq<char>> {
    if debug {
        seq![VALIDATION_LAYER@]
    } else {
        Seq::empty()
    }
}

/// The layers that the graphics instance must be created with.
pub fn get_required_layers(debug: bool) -> (layers: Vec<String>)
    ensures
        layers@.len() == required_layers(debug).len(),
        forall|i: int| 0 <= i < layers@.len() ==> (#[trigger] layers@[i])@ == required_layers(debug)[i],
{
    let mut layers: Vec<String> = Vec::new();
    if debug {
        layers.push(VALIDATION_LAYER.to_owned());
    }
    layers
}

/// Whether some entry of `names` spells `name`.
pub open spec fn names_hold(names: Seq<String>, name: Seq<char>) -> bool {
    exists|i: int| 0 <= i < names.len() && (#[trigger] names[i])@ == name
}

/// Whether the installed layers cover what the engine requires.
///
/// A driver that reports no layer at all counts as lacking support, also when
/// nothing is required.
pub open spec fn layer_support(available: Seq<String>, debug: bool) -> bool {
    available.len() > 0 && forall|k: int|
        0 <= k < required_layers(debug).len() ==> names_hold(
            available,
            #[trigger] required_layers(debug)[k],
        )
}

/// Tells whether `name` is among `names`.
pub fn has_name(names: &Vec<String>, name: &String) -> (found: bool)
    ensures
        found <==> names_hold(names@, name@),
{
    let mut i: usize = 0;
    while i < names.len()
        invariant
            i <= names@.len(),
            forall|h: int| 0 <= h < i ==> (#[trigger] names@[h])@ != name@,
        decreases names@.len() - i,
    {
        if names[i] == *name {
            return true;
        }
        i += 1;
    }
    false
}

/// Tells whether the layers that the driver reports cover the required ones.
pub fn is_required_layer_support_available(available: &Vec<String>, debug: bool) -> (supported: bool)
    ensures
        supported <==> layer_support(available@, debug),
{
    if available.len() == 0 {
        return false;
    }
    let required = get_required_layers(debug);
    let mut k: usize = 0;
    while k < required.len()
        invariant
            k <= required@.len(),
            required@.len() == required_layers(debug).len(),
            forall|i: int|
                0 <= i < required@.len() ==> (#[trigger] required@[i])@ == required_layers(
                    debug,
                )[i],
            forall|h: int|
                0 <= h < k ==> names_hold(available@, #[trigger] required_layers(debug)[h]),
        decreases required@.len() - k,
    {
        if !has_name(available, &required[k]) {
            return false;
        }
        k += 1;
    }
    true
}

/// Whether a device offers every extension and feature that the engine
/// requires, given what it reports for each of the two.
pub fn is_required_device_support_available(extensions_offered: bool, features_offered: bool)
    -> (supported: bool)
    ensures
        supported <==> extensions_offered && features_offered,
{
    extensions_offered && features_offered
}

} // verus!
