use vstd::prelude::*;
use vstd::string::*;

use crate::matcher::{rule_accepts, Matcher, Rule};
use crate::pipeline::Pipeline;
use crate::record::{FileModel, Kind};

verus! {

/// The id prefixes of the item categories whose icons are extracted.
pub open spec fn icon_prefixes() -> Seq<Seq<char>> {
    seq![
        "Metadata/Items/Gems"@,
        "Metadata/Items/Belts"@,
        "Metadata/Items/Rings"@,
        "Metadata/Items/Flasks"@,
        "Metadata/Items/Amulets"@,
        "Metadata/Items/Armours"@,
        "Metadata/Items/Weapons"@,
        "Metadata/Items/Trinkets"@,
    ]
}

/// Every unique item, and every record whose id lies under one of the icon
/// categories.
pub open spec fn is_item_icon(item: FileModel) -> bool {
    ||| item.kind == Kind::Unique
    ||| item.id is Some && exists|j: int|
        0 <= j < icon_prefixes().len() && #[trigger] icon_prefixes()[j].is_prefix_of(item.id->Some_0)
}

/// Flask base items and unique flasks.
pub open spec fn is_flask(item: FileModel) -> bool {
    item.id is Some && ("Metadata/Items/Flasks"@.is_prefix_of(item.id->Some_0)
        || "UniqueFlask"@.is_prefix_of(item.id->Some_0))
}

fn id_prefix(p: &str) -> (r: Rule)
    ensures
        r matches Rule::IdPrefix(s) && s@ == p@,
{
    Rule::IdPrefix(String::from_str(p))
}

/// The pipeline that extracts the item icon set into `out`, with `flask`
/// applied to the images of flasks.
pub fn item_icons<T>(out: String, flask: T) -> (r: Pipeline<Rule, T>)
    ensures
        r.out@ == out@,
        forall|item: FileModel| #[trigger] r.selected(item) == is_item_icon(item),
        r.postprocess@.len() == 1,
        r.postprocess@[0].1 == flask,
        forall|item: FileModel| #[trigger] r.postprocess@[0].0.accepts(item) == is_flask(item),
{
    let mut p: Pipeline<Rule, T> = Pipeline::new(out);
    p.select(id_prefix("Metadata/Items/Gems"));
    p.select(id_prefix("Metadata/Items/Belts"));
    p.select(id_prefix("Metadata/Items/Rings"));
    p.select(id_prefix("Metadata/Items/Flasks"));
    p.select(id_prefix("Metadata/Items/Amulets"));
    p.select(id_prefix("Metadata/Items/Armours"));
    p.select(id_prefix("Metadata/Items/Weapons"));
    p.select(id_prefix("Metadata/Items/Trinkets"));
    p.select(Rule::KindIs(Kind::Unique));
    let flasks = Rule::Either(
        Box::new(id_prefix("Metadata/Items/Flasks")),
        Box::new(id_prefix("UniqueFlask")),
    );
    p.postprocess(flasks, flask);
    proof {
        assert forall|item: FileModel| #[trigger] p.postprocess@[0].0.accepts(item) == is_flask(
            item,
        ) by {
            reveal_with_fuel(rule_accepts, 2);
        }
        let sel = p.selectors@;
        assert forall|item: FileModel| #[trigger] p.selected(item) == is_item_icon(item) by {
            if p.selected(item) {
                let i = choose|i: int| 0 <= i < sel.len() && #[trigger] sel[i].accepts(item);
                if i < 8 {
                    assert(icon_prefixes()[i].is_prefix_of(item.id->Some_0));
                }
            }
            if is_item_icon(item) {
                if item.kind == Kind::Unique {
                    assert(sel[8].accepts(item));
                } else {
                    let j = choose|j: int|
                        0 <= j < icon_prefixes().len() && #[trigger] icon_prefixes()[j].is_prefix_of(
                            item.id->Some_0,
                        );
                    assert(sel[j].accepts(item));
                }
            }
        }
    }
    p
}

} // verus!
