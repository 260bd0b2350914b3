use namegen::detect::{get_case, get_case_in_runs, replace_naming_same_case, NoMatchingCase};
use namegen::naming::{
    camel_of_lowered, capitalize, to_camel_case, Naming, NamingCase, DEFAULT_PLURAL,
};
use namegen::replace::substitute_all;
use namegen::text::{replace_chars, replace_literal};
use namegen::walk::{
    default_base_naming, default_target_dir, rewrite_file, TreeWalk, DEFAULT_BASE_DIR,
};

fn naming(singular: &str, plural: &str) -> Naming {
    Naming::new(singular.to_string(), plural.to_string())
}

#[test]
fn test_replace_naming_same_case_camel() {
    let path = "/Projects/kinotlen/camelCaseSection";

    let old_naming = Naming::new("camel".to_string(), "camel".to_string());
    let new_naming = Naming::new("new_shiny_name".to_string(), "new_shiny_names".to_string());

    assert_eq!(
        replace_naming_same_case(&path.to_string(), &old_naming, &new_naming).unwrap(),
        "/Projects/kinotlen/newShinyNameCaseSection".to_string()
    )
}

#[test]
fn same_case_scenario_other_path() {
    let from = naming("camel", DEFAULT_PLURAL);
    let to = naming("new_shiny_name", "new_shiny_names");
    assert_eq!(
        replace_naming_same_case("/Projects/x/camelCaseSection", &from, &to),
        Ok("/Projects/x/newShinyNameCaseSection".to_string())
    );
}

#[test]
fn same_case_without_match_fails() {
    let from = naming("camel", DEFAULT_PLURAL);
    let to = naming("horse", DEFAULT_PLURAL);
    assert_eq!(replace_naming_same_case("/Projects/x/zebra", &from, &to), Err(NoMatchingCase));
}

#[test]
fn derives_all_renderings() {
    let n = naming("new_shiny_name", "new_shiny_names");
    assert_eq!(n.singular_snake, "new_shiny_name");
    assert_eq!(n.plural_snake, "new_shiny_names");
    assert_eq!(n.singular_kebab, "new-shiny-name");
    assert_eq!(n.plural_kebab, "new-shiny-names");
    assert_eq!(n.singular_lower_camel, "newShinyName");
    assert_eq!(n.plural_lower_camel, "newShinyNames");
    assert_eq!(n.singular_upper_camel, "NewShinyName");
    assert_eq!(n.plural_upper_camel, "NewShinyNames");
    assert_eq!(n.count(), 3);
    assert_eq!(n.case(NamingCase::PluralKebab), "new-shiny-names");
    assert_eq!(n.case(NamingCase::SingularUpperCamel), "NewShinyName");
}

#[test]
fn snake_is_lower_case_and_kebab_keeps_case() {
    let n = naming("Legal_ENTITY", DEFAULT_PLURAL);
    assert_eq!(n.singular_snake, "legal_entity");
    assert_eq!(n.singular_kebab, "Legal-ENTITY");
    assert_eq!(n.singular_upper_camel, "LegalEntity");
    assert_eq!(n.singular_lower_camel, "legalEntity");
}

#[test]
fn empty_name_gives_empty_renderings() {
    let n = naming("", DEFAULT_PLURAL);
    for case in [
        NamingCase::SingularSnake,
        NamingCase::PluralSnake,
        NamingCase::SingularKebab,
        NamingCase::PluralKebab,
        NamingCase::SingularLowerCamel,
        NamingCase::PluralLowerCamel,
        NamingCase::SingularUpperCamel,
        NamingCase::PluralUpperCamel,
    ] {
        assert_eq!(n.case(case), "");
    }
    assert_eq!(n.count(), 1);
}

#[test]
fn default_plural_equals_singular() {
    let n = naming("legal_entity", DEFAULT_PLURAL);
    assert_eq!(n.plural_snake, n.singular_snake);
    assert_eq!(n.plural_kebab, n.singular_kebab);
    assert_eq!(n.plural_lower_camel, n.singular_lower_camel);
    assert_eq!(n.plural_upper_camel, n.singular_upper_camel);
}

#[test]
fn camel_stable_when_derived_from_snake() {
    let n = naming("Legal_Entity", "Legal_Entities");
    let again = naming(&n.singular_snake, DEFAULT_PLURAL);
    assert_eq!(again.singular_upper_camel, n.singular_upper_camel);
    assert_eq!(again.singular_upper_camel, "LegalEntity");
}

#[test]
fn capitalize_and_camel() {
    assert_eq!(capitalize("abc"), "Abc");
    assert_eq!(capitalize(""), "");
    assert_eq!(capitalize("émile"), "Émile");
    assert_eq!(to_camel_case("LEGAL_entity", false), "LegalEntity");
    assert_eq!(to_camel_case("LEGAL_entity", true), "legalEntity");
    assert_eq!(to_camel_case("a__b", false), "AB");
    assert_eq!(to_camel_case("_a", true), "A");
}

#[test]
fn replace_matches_std() {
    let cases = [
        ("ab", "", "x"),
        ("", "", "x"),
        ("", "a", "x"),
        ("aaa", "aa", "b"),
        ("legal_entities legal_entity", "legal_entity", "invoice"),
        ("abcabc", "bc", ""),
        ("ééé", "é", "e"),
    ];
    for (s, p, t) in cases {
        let got: String = replace_chars(
            &s.chars().collect(),
            &p.chars().collect(),
            &t.chars().collect(),
        )
        .into_iter()
        .collect();
        assert_eq!(got, s.replace(p, t));
    }
}

#[test]
fn substitute_with_itself_is_identity() {
    let n = naming("legal_entity", "legal_entities");
    let x = "LegalEntities legal-entity legalEntity legal_entities other";
    assert_eq!(substitute_all(x, &n, &n), x);
}

#[test]
fn substitute_round_trip() {
    let a = naming("legal_entity", "legal_entities");
    let b = naming("invoice", "invoices");
    let x = "struct LegalEntity; let legal_entities = legalEntities; mod legal-entity;";
    let there = substitute_all(x, &a, &b);
    assert_eq!(there, "struct Invoice; let invoices = invoices; mod invoice;");
    let b2 = naming("sales_order", "sales_orders");
    let y = "LegalEntity legal_entities legalEntities legal-entity";
    let there2 = substitute_all(y, &a, &b2);
    assert_eq!(there2, "SalesOrder sales_orders salesOrders sales-order");
    assert_eq!(substitute_all(&there2, &b2, &a), y);
}

#[test]
fn plural_replaced_before_singular() {
    let from = naming("legal_entity", "legal_entities");
    let to = naming("person", "people");
    assert_eq!(substitute_all("legal_entities legal_entity", &from, &to), "people person");
    assert_eq!(substitute_all("LegalEntities", &from, &to), "People");
}

#[test]
fn detects_lower_camel() {
    let n = naming("camel", "camel");
    assert_eq!(get_case("camelCaseSection", &n), Some(NamingCase::SingularLowerCamel));
}

#[test]
fn detects_upper_camel() {
    let n = naming("camel", "camel");
    assert_eq!(get_case("CamelCaseSection", &n), Some(NamingCase::SingularUpperCamel));
    assert_eq!(get_case("/x/CamelCaseSection", &n), Some(NamingCase::SingularUpperCamel));
}

#[test]
fn detects_by_run_punctuation() {
    let n = naming("camel", DEFAULT_PLURAL);
    assert_eq!(get_case("/x/my_camel", &n), Some(NamingCase::SingularSnake));
    assert_eq!(get_case("/x/my-camel", &n), Some(NamingCase::SingularKebab));
    assert_eq!(get_case("/x/camelCase", &n), Some(NamingCase::SingularLowerCamel));
    assert_eq!(get_case("/x/zebra", &n), None);
}

#[test]
fn detects_multi_token_by_text() {
    let n = naming("legal_entity", "legal_entities");
    assert_eq!(get_case("a/LegalEntityForm", &n), Some(NamingCase::SingularUpperCamel));
    assert_eq!(get_case("a/legal-entities", &n), Some(NamingCase::PluralKebab));
    assert_eq!(get_case("a/legal_entities", &n), Some(NamingCase::PluralSnake));
}

#[test]
fn detects_from_given_runs() {
    let n = naming("camel", DEFAULT_PLURAL);
    let runs = vec!["x".to_string(), "Camel".to_string(), "camel_y".to_string()];
    assert_eq!(
        get_case_in_runs("x Camel camel_y", &n, &runs),
        Some(NamingCase::SingularSnake)
    );
    let runs = vec!["camel".to_string()];
    assert_eq!(get_case_in_runs("camel", &n, &runs), Some(NamingCase::SingularLowerCamel));
    let runs: Vec<String> = vec![];
    assert_eq!(get_case_in_runs("camel", &n, &runs), None);
}

#[test]
fn default_clone_renames_dir_and_contents() {
    let base = default_base_naming();
    let target = naming("invoice", "invoices");
    assert_eq!(default_target_dir(&target), "premiera_invoices");
    assert_eq!(substitute_all(DEFAULT_BASE_DIR, &base, &target), "premiera_invoices");
    let (path, contents) = rewrite_file(
        "/p/premiera_legal_entities/legal_entity_form.ts",
        "const legalEntity = new LegalEntity();",
        &base,
        &target,
    );
    assert_eq!(path, "/p/premiera_invoices/invoice_form.ts");
    assert_eq!(contents, "const invoice = new Invoice();");
    let single = naming("invoice", DEFAULT_PLURAL);
    assert_eq!(default_target_dir(&single), "premiera_invoice");
}

#[test]
fn walk_is_depth_first_from_root() {
    let from = default_base_naming();
    let to = naming("invoice", "invoices");
    let mut walk = TreeWalk::new("/p/premiera_legal_entities".to_string());
    assert_eq!(walk.next_dir(), Some("/p/premiera_legal_entities".to_string()));
    let a = walk.enter_dir("/p/premiera_legal_entities/a".to_string(), &from, &to);
    assert_eq!(a, "/p/premiera_invoices/a");
    let b = walk.enter_dir("/p/premiera_legal_entities/legal_entity".to_string(), &from, &to);
    assert_eq!(b, "/p/premiera_invoices/invoice");
    assert_eq!(walk.next_dir(), Some("/p/premiera_legal_entities/legal_entity".to_string()));
    assert_eq!(walk.next_dir(), Some("/p/premiera_legal_entities/a".to_string()));
    assert_eq!(walk.next_dir(), None);
}

#[test]
fn camel_of_lowered_keeps_given_case() {
    assert_eq!(camel_of_lowered("new_shiny_name", true), "newShinyName");
    assert_eq!(camel_of_lowered("new_shiny_name", false), "NewShinyName");
    assert_eq!(camel_of_lowered("", false), "");
}

#[test]
fn literal_replace_round_trip() {
    let x = "a legal entity, another legal entity";
    let there = replace_literal(x, "legal", "#x#");
    assert_eq!(there, "a #x# entity, another #x# entity");
    assert_eq!(replace_literal(&there, "#x#", "legal"), x);
}
