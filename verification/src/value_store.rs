//! The types of assets that the value store holds, and the ids and
//! references by which styles name them.

pub mod types;

use std::collections::HashMap;

use vstd::prelude::*;

use crate::ids::{new_uuid, UUID_V4_BITS, UUID_VERSION_MASK};
use crate::value_types::{value_cast_allowed, value_type_name, ValueType};

verus! {

/// The type of value that an asset produces.
#[derive(Clone, Copy, Debug, PartialEq, Eq, Structural)]
pub enum AssetType {
    Number,
    Text,
    Color,
    Boolean,
    Image,
}

/// An asset of type `from` may be used where an asset of type `to` is
/// expected: every type stands for itself, and a number can be shown as text.
pub open spec fn asset_cast_allowed(from: AssetType, to: AssetType) -> bool {
    ||| from == to
    ||| (from == AssetType::Number && to == AssetType::Text)
}

/// The name under which an asset type is shown to the user.
pub open spec fn asset_type_name(t: AssetType) -> Seq<char> {
    match t {
        AssetType::Number => "Number"@,
        AssetType::Text => "Text"@,
        AssetType::Color => "Color"@,
        AssetType::Boolean => "Boolean"@,
        AssetType::Image => "Image"@,
    }
}

impl AssetType {
    pub fn can_cast_to(&self, other: &AssetType) -> (r: bool)
        ensures
            r == asset_cast_allowed(*self, *other),
    {
        match (self, other) {
            (a, b) if *a == *b => true,
            (AssetType::Number, AssetType::Text) => true,
            _ => false,
        }
    }

    pub fn name(&self) -> (r: &'static str)
        ensures
            r@ == asset_type_name(*self),
    {
        match self {
            AssetType::Number => "Number",
            AssetType::Text => "Text",
            AssetType::Color => "Color",
            AssetType::Boolean => "Boolean",
            AssetType::Image => "Image",
        }
    }
}

impl Default for AssetType {
    /// A new asset produces a number.
    fn default() -> (r: AssetType)
        ensures
            r == AssetType::Number,
    {
        AssetType::Number
    }
}

/// A reference from a style property to an asset: the asset's id and the
/// type that the property expects of it.
pub struct AssetReference {
    pub asset_type: AssetType,
    pub key: u128,
}

impl Default for AssetReference {
    /// The reference to the nil id, expecting a number.
    fn default() -> (r: AssetReference)
        ensures
            r.asset_type == AssetType::Number,
            r.key == 0,
    {
        AssetReference { asset_type: AssetType::Number, key: 0 }
    }
}

/// The identity of an asset: its id, its name and the type of value it
/// produces.
pub struct AssetId {
    pub id: u128,
    pub name: String,
    pub asset_type: AssetType,
}

impl Default for AssetId {
    /// A new asset called "Variable" that produces a number, with a fresh
    /// random id.
    fn default() -> (r: AssetId)
        ensures
            r.name@ == "Variable"@,
            r.asset_type == AssetType::Number,
            r.id & UUID_VERSION_MASK == UUID_V4_BITS,
    {
        AssetId { name: String::from_str("Variable"), id: new_uuid(), asset_type: AssetType::Number }
    }
}

impl AssetId {
    /// The reference by which a property names this asset.
    pub fn get_ref(&self) -> (r: AssetReference)
        ensures
            r.asset_type == self.asset_type,
            r.key == self.id,
    {
        AssetReference { asset_type: self.asset_type, key: self.id }
    }
}

/// Every asset type stands for itself, and the only other cast is of a
/// number to text.
pub proof fn law_asset_casts(from: AssetType, to: AssetType)
    ensures
        asset_cast_allowed(from, from),
        from != to ==> (asset_cast_allowed(from, to) <==> (from == AssetType::Number && to == AssetType::Text)),
{
}

/// The asset type that holds values of a value type: number, text,
/// colour, boolean and image.
pub open spec fn asset_type_for(t: ValueType) -> AssetType {
    match t {
        ValueType::Number => AssetType::Number,
        ValueType::Text => AssetType::Text,
        ValueType::Tint => AssetType::Color,
        ValueType::Boolean => AssetType::Boolean,
        ValueType::Texture => AssetType::Image,
    }
}

/// A value type and the asset type that holds its values are shown under
/// the same name, different value types are held by different asset
/// types, and a cast that assets allow is one that values allow too.
pub proof fn law_value_and_asset_types_agree(t: ValueType, u: ValueType)
    ensures
        value_type_name(t) == asset_type_name(asset_type_for(t)),
        t != u ==> asset_type_for(t) != asset_type_for(u),
        asset_cast_allowed(asset_type_for(t), asset_type_for(u)) ==> value_cast_allowed(t, u),
{
}

/// `m` with each definition of `defs` inserted in order: a later
/// definition of an id replaces an earlier one.
pub open spec fn insert_all<P>(m: Map<u128, P>, defs: Seq<(u128, P)>) -> Map<u128, P>
    decreases defs.len(),
{
    if defs.len() == 0 {
        m
    } else {
        insert_all(m, defs.drop_last()).insert(defs.last().0, defs.last().1)
    }
}

/// The last index at which `id` is defined in `defs`, or -1 when it is
/// not defined there.
pub open spec fn last_index_of<P>(defs: Seq<(u128, P)>, id: u128) -> int
    decreases defs.len(),
{
    if defs.len() == 0 {
        -1
    } else if defs.last().0 == id {
        defs.len() - 1
    } else {
        last_index_of(defs.drop_last(), id)
    }
}

proof fn lemma_insert_all_concat<P>(m: Map<u128, P>, a: Seq<(u128, P)>, b: Seq<(u128, P)>)
    ensures
        insert_all(insert_all(m, a), b) == insert_all(m, a + b),
    decreases b.len(),
{
    if b.len() == 0 {
        assert(a + b =~= a);
    } else {
        lemma_insert_all_concat(m, a, b.drop_last());
        assert((a + b).drop_last() =~= a + b.drop_last());
        assert((a + b).last() == b.last());
    }
}

proof fn lemma_insert_all_lookup<P>(m: Map<u128, P>, defs: Seq<(u128, P)>, id: u128)
    ensures
        last_index_of(defs, id) >= 0 <==> exists|k: int| 0 <= k < defs.len() && #[trigger] defs[k].0 == id,
        last_index_of(defs, id) < defs.len(),
        last_index_of(defs, id) >= 0 ==> {
            &&& defs[last_index_of(defs, id)].0 == id
            &&& insert_all(m, defs).contains_key(id)
            &&& insert_all(m, defs)[id] == defs[last_index_of(defs, id)].1
        },
        last_index_of(defs, id) < 0 ==> {
            &&& insert_all(m, defs).contains_key(id) == m.contains_key(id)
            &&& m.contains_key(id) ==> insert_all(m, defs)[id] == m[id]
        },
    decreases defs.len(),
{
    if defs.len() > 0 {
        let init = defs.drop_last();
        lemma_insert_all_lookup(m, init, id);
        if defs.last().0 != id {
            if exists|k: int| 0 <= k < defs.len() && #[trigger] defs[k].0 == id {
                let k = choose|k: int| 0 <= k < defs.len() && #[trigger] defs[k].0 == id;
                assert(k < init.len());
                assert(init[k].0 == id);
            }
            if last_index_of(init, id) >= 0 {
                assert(defs[last_index_of(init, id)] == init[last_index_of(init, id)]);
            }
        } else {
            assert(defs[defs.len() - 1].0 == id);
        }
    }
}

/// The value producers of the assets, variables and game sources of a
/// style, by asset id.
pub struct ValueStore<P> {
    assets: HashMap<u128, P>,
}

impl<P> ValueStore<P> {
    pub closed spec fn assets_view(&self) -> Map<u128, P> {
        self.assets@
    }

    /// Rebuilds the store from the style's variables, its assets and the
    /// game sources, each given as asset id and producer. Where an id is
    /// defined more than once the last definition wins, so the game
    /// sources come before the assets and the assets before the variables.
    pub fn reload_repo(&mut self, vars: Vec<(u128, P)>, assets: Vec<(u128, P)>, game_sources: Vec<(u128, P)>)
        ensures
            final(self).assets_view() == insert_all(
                insert_all(insert_all(Map::empty(), vars@), assets@),
                game_sources@,
            ),
    {
        self.assets.clear();
        self.convert(vars);
        self.convert(assets);
        self.convert(game_sources);
    }

    fn convert(&mut self, defs: Vec<(u128, P)>)
        ensures
            final(self).assets_view() == insert_all(old(self).assets_view(), defs@),
    {
        let ghost m0 = self.assets@;
        let ghost all = defs@;
        for def in it: defs
            invariant
                all == it.seq(),
                self.assets@ == insert_all(m0, it.seq().take(it.index())),
        {
            let (id, producer) = def;
            proof {
                assert(it.seq().take(it.index() + 1).drop_last() =~= it.seq().take(it.index() as int));
            }
            self.assets.insert(id, producer);
        }
        proof {
            assert(all.take(all.len() as int) =~= all);
        }
    }

    /// The producer of the asset `id`, if the store has it.
    pub fn get(&self, id: u128) -> (r: Option<&P>)
        ensures
            r == (if self.assets_view().contains_key(id) { Some(&self.assets_view()[id]) } else { None }),
    {
        self.assets.get(&id)
    }
}

impl<P> Default for ValueStore<P> {
    /// An empty store.
    fn default() -> (r: Self)
        ensures
            r.assets_view() == Map::<u128, P>::empty(),
    {
        ValueStore { assets: HashMap::new() }
    }
}

/// After a reload the store holds exactly the ids that are defined
/// somewhere, and each maps to its last definition, game sources first,
/// then assets, then variables.
pub proof fn law_reload_keeps_last_definition<P>(vars: Seq<(u128, P)>, assets: Seq<(u128, P)>, sources: Seq<(u128, P)>, id: u128)
    ensures
        ({
            let m = insert_all(insert_all(insert_all(Map::empty(), vars), assets), sources);
            let all = vars + assets + sources;
            &&& m.contains_key(id) <==> exists|k: int| 0 <= k < all.len() && #[trigger] all[k].0 == id
            &&& m.contains_key(id) ==> m[id] == all[last_index_of(all, id)].1
        }),
{
    lemma_insert_all_concat(Map::empty(), vars, assets);
    lemma_insert_all_concat(Map::empty(), vars + assets, sources);
    lemma_insert_all_lookup(Map::empty(), vars + assets + sources, id);
}

} // verus!
