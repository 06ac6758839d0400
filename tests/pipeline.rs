use pobbin_assets::icons::item_icons;
use pobbin_assets::matcher::{has_prefix, Matcher, Rule};
use pobbin_assets::pipeline::{Action, Pipeline, Plan, SetupError, Table, Tables};
use pobbin_assets::record::{catalog, BaseItem, Entry, File, Kind, UniqueItem, VisualIdentity, Warning, Word};

fn text(s: &str) -> Option<String> {
    Some(s.to_string())
}

fn base(id: &str, vis: u64, name: &str) -> BaseItem {
    BaseItem { id: text(id), item_visual_identity: vis, name: text(name) }
}

fn visual(dds: &str, alternate: bool) -> VisualIdentity {
    VisualIdentity { id: text("Metadata/Items/Rings/Unique"), dds_file: text(dds), is_alternate_art: alternate }
}

fn file(kind: Kind, id: &str) -> File {
    File { kind, id: text(id), item_visual_identity: 0, name: text("x") }
}

fn prefix(p: &str) -> Rule {
    Rule::IdPrefix(p.to_string())
}

fn gems_pipeline() -> Pipeline<Rule, u32> {
    let mut p: Pipeline<Rule, u32> = Pipeline::new("out".to_string());
    p.select(prefix("Metadata/Items/Gems"));
    p
}

fn tables(bases: Vec<BaseItem>, uniques: Vec<UniqueItem>, words: Vec<Word>, visuals: Vec<VisualIdentity>) -> Tables {
    Tables { bases: Some(bases), uniques: Some(uniques), words: Some(words), visuals: Some(visuals) }
}

fn plan_ok(p: &Pipeline<Rule, u32>, t: Tables) -> Plan {
    match p.plan(true, t) {
        Ok(plan) => plan,
        Err(e) => panic!("plan failed: {:?}", e),
    }
}

#[test]
fn prefix_check() {
    assert!(has_prefix("Metadata/Items/Gems/X", "Metadata/Items/Gems"));
    assert!(has_prefix("abc", ""));
    assert!(has_prefix("abc", "abc"));
    assert!(!has_prefix("ab", "abc"));
    assert!(!has_prefix("Metadata/Items/Belts/X", "Metadata/Items/Gems"));
}

#[test]
fn rules_match() {
    let gem = file(Kind::Base, "Metadata/Items/Gems/X");
    let unique = file(Kind::Unique, "Art/Uniques/Y");
    let nameless = File { kind: Kind::Base, id: None, item_visual_identity: 0, name: None };
    assert!(prefix("Metadata/Items/Gems").matches(&gem));
    assert!(!prefix("Metadata/Items/Gems").matches(&unique));
    assert!(!prefix("Metadata").matches(&nameless));
    assert!(Rule::KindIs(Kind::Unique).matches(&unique));
    assert!(!Rule::KindIs(Kind::Unique).matches(&gem));
    let either = Rule::Either(Box::new(prefix("Metadata/Items/Flasks")), Box::new(prefix("UniqueFlask")));
    assert!(either.matches(&file(Kind::Unique, "UniqueFlask3")));
    assert!(either.matches(&file(Kind::Base, "Metadata/Items/Flasks/Life1")));
    assert!(!either.matches(&gem));
}

#[test]
fn no_selectors_select_nothing() {
    let p: Pipeline<Rule, u32> = Pipeline::new("out".to_string());
    assert!(!p.selects(&file(Kind::Base, "Metadata/Items/Gems/X")));
    assert!(!p.selects(&file(Kind::Unique, "")));
}

#[test]
fn one_selector() {
    let p = gems_pipeline();
    assert!(p.selects(&file(Kind::Base, "Metadata/Items/Gems/X")));
    assert!(!p.selects(&file(Kind::Base, "Metadata/Items/Belts/X")));
}

#[test]
fn many_selectors_overlap() {
    let mut p = gems_pipeline();
    p.select(prefix("Metadata/Items/Belts"));
    p.select(Rule::KindIs(Kind::Unique));
    p.select(prefix("Metadata/Items"));
    assert_eq!(p.selectors.len(), 4);
    assert!(p.selects(&file(Kind::Base, "Metadata/Items/Gems/X")));
    assert!(p.selects(&file(Kind::Base, "Metadata/Items/Belts/X")));
    assert!(p.selects(&file(Kind::Unique, "Art/Y")));
    assert!(p.selects(&file(Kind::Base, "Metadata/Items/Quivers/Q")));
    assert!(!p.selects(&file(Kind::Base, "Metadata/Monsters/Z")));
}

#[test]
fn catalog_puts_bases_first_and_resolves_uniques() {
    let bases = vec![base("Metadata/Items/Gems/X", 0, "Vaal Haste")];
    let uniques = vec![
        UniqueItem { words: 1, item_visual_identity: 0 },
        UniqueItem { words: 5, item_visual_identity: 0 },
        UniqueItem { words: 0, item_visual_identity: 9 },
    ];
    let words = vec![Word { text: text("Kaom's Heart") }, Word { text: text("Headhunter") }];
    let vis = vec![visual("Art/A.dds", false)];
    let c = catalog(&bases, &uniques, &words, &vis);
    assert_eq!(c.len(), 4);
    match &c[0] {
        Entry::Item(f) => {
            assert_eq!(f.kind, Kind::Base);
            assert_eq!(f.name, text("Vaal Haste"));
            assert_eq!(f.id, text("Metadata/Items/Gems/X"));
        }
        Entry::Unresolved(_) => panic!("base record lost"),
    }
    match &c[1] {
        Entry::Item(f) => {
            assert_eq!(f.kind, Kind::Unique);
            assert_eq!(f.name, text("Headhunter"));
            assert_eq!(f.id, text("Metadata/Items/Rings/Unique"));
            assert_eq!(f.item_visual_identity, 0);
        }
        Entry::Unresolved(_) => panic!("unique record lost"),
    }
    assert!(matches!(c[2], Entry::Unresolved(Warning::NoWord)));
    assert!(matches!(c[3], Entry::Unresolved(Warning::NoVisualIdentity)));
}

#[test]
fn end_to_end_single_gem() {
    let p = gems_pipeline();
    let t = tables(
        vec![base("Metadata/Items/Gems/X", 0, "Vaal Haste")],
        vec![],
        vec![],
        vec![visual("Art/2DItems/Gems/VaalHaste.dds", false)],
    );
    let plan = plan_ok(&p, t);
    assert_eq!(plan.actions, vec![Action::Emit { record: 0, visual: 0 }]);
    assert_eq!(plan.visuals[0].dds_file, text("Art/2DItems/Gems/VaalHaste.dds"));
    let emitted = plan.actions.iter().filter(|a| matches!(a, Action::Emit { .. })).count();
    assert_eq!(emitted, 1);
    assert_eq!(pobbin_assets::digest::output_file_name("Vaal Haste"), "Vaal Haste.webp");
}

#[test]
fn same_name_written_twice_in_order() {
    let p = gems_pipeline();
    let t = tables(
        vec![base("Metadata/Items/Gems/A", 0, "Vaal Haste"), base("Metadata/Items/Gems/B", 1, "Vaal Haste")],
        vec![],
        vec![],
        vec![visual("Art/A.dds", false), visual("Art/B.dds", false)],
    );
    let plan = plan_ok(&p, t);
    assert_eq!(plan.actions, vec![Action::Emit { record: 0, visual: 0 }, Action::Emit { record: 1, visual: 1 }]);
}

#[test]
fn alternate_art_never_emitted() {
    let mut p = gems_pipeline();
    p.select(Rule::KindIs(Kind::Base));
    p.select(prefix(""));
    let t = tables(
        vec![base("Metadata/Items/Gems/X", 0, "Vaal Haste"), base("Metadata/Items/Gems/Y", 1, "Haste")],
        vec![],
        vec![],
        vec![visual("Art/Alt.dds", true), visual("Art/Haste.dds", false)],
    );
    let plan = plan_ok(&p, t);
    assert_eq!(plan.actions, vec![Action::Emit { record: 1, visual: 1 }]);
}

#[test]
fn missing_visual_warns_once_and_run_continues() {
    let p = gems_pipeline();
    let t = tables(
        vec![
            base("Metadata/Items/Gems/X", 7, "Lost"),
            base("Metadata/Items/Gems/Y", 0, "Haste"),
            base("Metadata/Items/Belts/Z", 9, "Unselected"),
        ],
        vec![],
        vec![],
        vec![visual("Art/Haste.dds", false)],
    );
    let plan = plan_ok(&p, t);
    assert_eq!(
        plan.actions,
        vec![Action::Warn { record: 0, reason: Warning::NoVisualIdentity }, Action::Emit { record: 1, visual: 0 }]
    );
}

#[test]
fn invalid_text_warns() {
    let p = gems_pipeline();
    let nameless = BaseItem { id: text("Metadata/Items/Gems/N"), item_visual_identity: 0, name: None };
    let bad_dds = VisualIdentity { id: None, dds_file: None, is_alternate_art: false };
    let t = tables(
        vec![nameless, base("Metadata/Items/Gems/D", 1, "Dds")],
        vec![],
        vec![],
        vec![visual("Art/N.dds", false), bad_dds],
    );
    let plan = plan_ok(&p, t);
    assert_eq!(
        plan.actions,
        vec![
            Action::Warn { record: 0, reason: Warning::InvalidName },
            Action::Warn { record: 1, reason: Warning::InvalidDdsFile },
        ]
    );
}

#[test]
fn unresolved_uniques_warn_even_unselected() {
    let mut p: Pipeline<Rule, u32> = Pipeline::new("out".to_string());
    p.select(Rule::KindIs(Kind::Unique));
    let t = tables(
        vec![],
        vec![UniqueItem { words: 3, item_visual_identity: 0 }, UniqueItem { words: 0, item_visual_identity: 0 }],
        vec![Word { text: text("Headhunter") }],
        vec![visual("Art/HH.dds", false)],
    );
    let plan = plan_ok(&p, t);
    assert_eq!(plan.records.len(), 2);
    assert_eq!(
        plan.actions,
        vec![Action::Warn { record: 0, reason: Warning::NoWord }, Action::Emit { record: 1, visual: 0 }]
    );
}

#[test]
fn out_dir_must_be_directory() {
    let p = gems_pipeline();
    let t = tables(vec![base("Metadata/Items/Gems/X", 0, "Vaal Haste")], vec![], vec![], vec![visual("a", false)]);
    assert!(matches!(p.plan(false, t), Err(SetupError::OutDirNotDirectory)));
}

#[test]
fn missing_tables_fail_the_run() {
    let p = gems_pipeline();
    let full = || tables(vec![base("Metadata/Items/Gems/X", 0, "Vaal Haste")], vec![], vec![], vec![visual("a", false)]);
    let mut t = full();
    t.bases = None;
    assert!(matches!(p.plan(true, t), Err(SetupError::MissingTable(Table::BaseItemTypes))));
    let mut t = full();
    t.uniques = None;
    assert!(matches!(p.plan(true, t), Err(SetupError::MissingTable(Table::UniqueStashLayout))));
    let mut t = full();
    t.words = None;
    assert!(matches!(p.plan(true, t), Err(SetupError::MissingTable(Table::Words))));
    let mut t = full();
    t.visuals = None;
    assert!(matches!(p.plan(true, t), Err(SetupError::MissingTable(Table::ItemVisualIdentity))));
    let mut t = full();
    t.words = None;
    assert!(matches!(p.plan(false, t), Err(SetupError::OutDirNotDirectory)));
}

#[test]
fn transforms_follow_their_own_matchers_in_order() {
    let mut p: Pipeline<Rule, u32> = Pipeline::new("out".to_string());
    p.postprocess(prefix("Metadata/Items/Flasks"), 10);
    p.postprocess(prefix("Metadata/Items/Gems"), 20);
    p.postprocess(Rule::KindIs(Kind::Base), 30);
    let flask = file(Kind::Base, "Metadata/Items/Flasks/Life1");
    assert_eq!(p.transforms_for(&flask), vec![0, 2]);
    assert_eq!(p.transforms_for(&file(Kind::Unique, "UniqueFlask1")), Vec::<usize>::new());
    p.select(prefix("Metadata/Items/Gems"));
    assert!(!p.selects(&flask));
    assert_eq!(p.transforms_for(&flask), vec![0, 2]);
    assert_eq!(p.postprocess[2].1, 30);
}

#[test]
fn hex_encoding() {
    assert_eq!(pobbin_assets::digest::hex_lower(&[0x0f, 0xa0, 0x00, 0xff]), "0fa000ff");
    assert_eq!(pobbin_assets::digest::hex_lower(&[]), "");
}

#[test]
fn sha256_digests() {
    assert_eq!(
        pobbin_assets::digest::sha256_hex(b"abc"),
        "ba7816bf8f01cfea414140de5dae2223b00361a396177a9cb410ff61f20015ad"
    );
    assert_eq!(
        pobbin_assets::digest::sha256_hex(b""),
        "e3b0c44298fc1c149afbf4c8996fb92427ae41e4649b934ca495991b7852b855"
    );
}

#[test]
fn icon_set_selection() {
    let p = item_icons("out".to_string(), 7u32);
    assert_eq!(p.out, "out");
    assert_eq!(p.selectors.len(), 9);
    for id in [
        "Metadata/Items/Gems/SkillGemHaste",
        "Metadata/Items/Belts/Belt1",
        "Metadata/Items/Rings/Ring1",
        "Metadata/Items/Flasks/FlaskLife1",
        "Metadata/Items/Amulets/Amulet1",
        "Metadata/Items/Armours/Boots/BootsStr1",
        "Metadata/Items/Weapons/OneHandWeapons/Claws/Claw1",
        "Metadata/Items/Trinkets/Trinket1",
    ] {
        assert!(p.selects(&file(Kind::Base, id)), "{}", id);
    }
    assert!(!p.selects(&file(Kind::Base, "Metadata/Items/Currency/CurrencyOrb")));
    assert!(!p.selects(&file(Kind::Base, "Metadata/Items/Gem")));
    assert!(p.selects(&file(Kind::Unique, "Art/2DItems/Rings/Unique")));
}

#[test]
fn icon_set_flask_transform() {
    let p = item_icons("out".to_string(), 7u32);
    assert_eq!(p.postprocess.len(), 1);
    assert_eq!(p.postprocess[0].1, 7);
    assert_eq!(p.transforms_for(&file(Kind::Base, "Metadata/Items/Flasks/FlaskMana2")), vec![0]);
    assert_eq!(p.transforms_for(&file(Kind::Unique, "UniqueFlask4")), vec![0]);
    assert_eq!(p.transforms_for(&file(Kind::Unique, "Art/2DItems/Flasks/Unique")), Vec::<usize>::new());
    assert_eq!(p.transforms_for(&file(Kind::Base, "Metadata/Items/Rings/Ring1")), Vec::<usize>::new());
}

#[test]
fn sha256_hex_has_64_digits() {
    let h = pobbin_assets::digest::sha256_hex(b"Art/2DItems/Gems/VaalHaste.dds");
    assert_eq!(h.len(), 64);
    assert!(h.chars().all(|c| c.is_ascii_digit() || ('a'..='f').contains(&c)));
}
