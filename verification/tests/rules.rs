use zecure_guard::rules::business_logic;
use zecure_guard::rules::debug_statements;
use zecure_guard::runner::{check_file, check_files, SourceFile};

// Debug-statement rule -------------------------------------------------

#[test]
fn debug_each_name_once_per_line() {
    let content = "dd($race);\ndump($x);\nvar_dump($y);\nprint_r($z);\nray($q);";
    let vs = debug_statements::check("app/Models/Race.php", content);
    assert_eq!(vs.len(), 5);
    let names = ["dd", "dump", "var_dump", "print_r", "ray"];
    for (i, v) in vs.iter().enumerate() {
        assert_eq!(v.line, i + 1);
        assert_eq!(v.rule_code, "DBG001");
        assert_eq!(v.rule_name, "No Debug Statements");
        assert_eq!(
            v.message,
            format!("Debug statement '{}()' found - remove before committing", names[i])
        );
        assert_eq!(
            v.suggestion.as_deref(),
            Some("Remove this debug statement before committing")
        );
    }
}

#[test]
fn debug_substring_of_identifier_is_no_match() {
    let vs = debug_statements::check("a.php", "add_dump_handler($x);\n$dumped = dumped($y);");
    assert!(vs.is_empty());
}

#[test]
fn debug_word_boundary_cases() {
    // A digit or underscore before the name makes it part of a longer
    // identifier; a sigil does not.
    assert!(debug_statements::check("a.php", "1dd($x);").is_empty());
    assert!(debug_statements::check("a.php", "_dd($x);").is_empty());
    assert!(debug_statements::check("a.php", "Xdd($x);").is_empty());
    let vs = debug_statements::check("a.php", "$y = @dd($x);");
    assert_eq!(vs.len(), 1);
    assert_eq!(vs[0].line, 1);
}

#[test]
fn debug_whitespace_before_paren_still_matches() {
    let vs = debug_statements::check("a.php", "dd  ($x);");
    assert_eq!(vs.len(), 1);
    assert!(vs[0].message.contains("'dd()'"));
}

#[test]
fn debug_unicode_whitespace() {
    // A no-break space is whitespace: trimmed from the snippet, and
    // allowed between the name and the parenthesis (an em space here).
    let vs = debug_statements::check("a.php", "\u{a0}dd\u{2003}($x);\u{a0}");
    assert_eq!(vs.len(), 1);
    assert_eq!(vs[0].code_snippet, "dd\u{2003}($x);");
}

#[test]
fn debug_name_without_call_paren_is_no_match() {
    let vs = debug_statements::check("a.php", "$dd = 1;\nray;\ndump . $x;");
    assert!(vs.is_empty());
}

#[test]
fn debug_one_violation_per_line_first_match_wins() {
    let vs = debug_statements::check("a.php", "dd($a); dump($b);");
    assert_eq!(vs.len(), 1);
    assert_eq!(
        vs[0].message,
        "Debug statement 'dd()' found - remove before committing"
    );
}

#[test]
fn debug_longer_name_reported_not_its_suffix() {
    let vs = debug_statements::check("a.php", "var_dump($a);");
    assert_eq!(vs.len(), 1);
    assert!(vs[0].message.contains("'var_dump()'"));
}

#[test]
fn debug_snippet_is_trimmed_line() {
    let vs = debug_statements::check("a.php", "    dd($x);   ");
    assert_eq!(vs.len(), 1);
    assert_eq!(vs[0].code_snippet, "dd($x);");
    assert_eq!(vs[0].file, "a.php");
}

#[test]
fn debug_crlf_line_numbers() {
    let vs = debug_statements::check("a.php", "$a = 1;\r\ndd($x);\r\n");
    assert_eq!(vs.len(), 1);
    assert_eq!(vs[0].line, 2);
    assert_eq!(vs[0].code_snippet, "dd($x);");
}

// Business-logic rules -------------------------------------------------

#[test]
fn business_rules_need_a_matching_path() {
    // A path in none of the scoped layers yields nothing, whatever the
    // content holds.
    let content = "DB::transaction(function () {\nRace::create($data);\nPrize::find($id);";
    let vs = business_logic::check("app/Models/Race.php", content);
    assert!(vs.is_empty());
}

#[test]
fn bl001_transaction_in_filament() {
    let vs = business_logic::check(
        "app/Filament/Resources/RaceResource.php",
        "DB::transaction(function () use ($data) {",
    );
    assert_eq!(vs.len(), 1);
    assert_eq!(vs[0].rule_code, "BL001");
    assert_eq!(vs[0].rule_name, "Business Logic in UI Layer");
    assert_eq!(
        vs[0].message,
        "Database transactions belong in Service layer, not Filament components"
    );
    assert_eq!(
        vs[0].suggestion.as_deref(),
        Some("Move this transaction to a Service class and call from Filament")
    );
}

#[test]
fn bl002_model_create_in_filament() {
    let vs = business_logic::check(
        "app/Filament/Resources/RaceResource.php",
        "Race::create($data);",
    );
    assert_eq!(vs.len(), 1);
    assert_eq!(vs[0].rule_code, "BL002");
    assert_eq!(vs[0].rule_name, "Direct Model Access in UI");
    assert_eq!(
        vs[0].message,
        "Filament components should use Services, not direct model queries"
    );
    assert_eq!(
        vs[0].suggestion.as_deref(),
        Some("Create a Service method and call it from this component")
    );
}

#[test]
fn bl002_filament_suppression_heuristics() {
    // A relationship definition or type hint is skipped in Filament.
    let vs = business_logic::check(
        "app/Filament/Resources/RaceResource.php",
        "public function race(): Race::class",
    );
    assert!(vs.is_empty());
    let vs = business_logic::check(
        "app/Filament/Resources/RaceResource.php",
        "function make() { return Race::create($d); }",
    );
    assert!(vs.is_empty());
    let vs = business_logic::check(
        "app/Filament/Resources/RaceResource.php",
        "return Race::create($d); // gives back Race::class",
    );
    assert!(vs.is_empty());
    // `return` alone, without `::class`, does not suppress.
    let vs = business_logic::check(
        "app/Filament/Resources/RaceResource.php",
        "return Race::create($d);",
    );
    assert_eq!(vs.len(), 1);
    assert_eq!(vs[0].rule_code, "BL002");
}

#[test]
fn bl002_controllers_apply_no_suppression() {
    // The same heuristic does NOT apply on a Controllers path.
    let vs = business_logic::check(
        "app/Http/Controllers/RaceController.php",
        "function getRace() { return Race::find($id); }",
    );
    assert_eq!(vs.len(), 1);
    assert_eq!(vs[0].rule_code, "BL002");
    assert_eq!(vs[0].line, 1);
}

#[test]
fn bl002_both_layers_in_one_path() {
    // A path in both layers runs both passes; only the Filament pass
    // suppresses.
    let vs = business_logic::check(
        "app/Filament/Controllers/X.php",
        "Race::create($d);\nfunction f() { return Race::find($i); }",
    );
    assert_eq!(vs.len(), 3);
    // Filament pass first (line 1 only), then the Controllers pass.
    assert_eq!((vs[0].rule_code.as_str(), vs[0].line), ("BL002", 1));
    assert_eq!((vs[1].rule_code.as_str(), vs[1].line), ("BL002", 1));
    assert_eq!((vs[2].rule_code.as_str(), vs[2].line), ("BL002", 2));
}

#[test]
fn bl003_subset_only() {
    // `all` is outside the five-verb subset.
    let vs = business_logic::check("app/Services/PrizeService.php", "Prize::all()");
    assert!(vs.is_empty());
    // `Role` is outside the four-name subset.
    let vs = business_logic::check("app/Services/RoleService.php", "Role::create($d);");
    assert!(vs.is_empty());
    // A name and verb inside both subsets violate.
    let vs = business_logic::check(
        "app/Services/RaceService.php",
        "$races = Race::where('active', true);",
    );
    assert_eq!(vs.len(), 1);
    assert_eq!(vs[0].rule_code, "BL003");
    assert_eq!(vs[0].rule_name, "Service Bypassing Repository");
    assert_eq!(
        vs[0].message,
        "Services should use Repositories for data access, not direct model queries"
    );
    assert_eq!(
        vs[0].suggestion.as_deref(),
        Some("Inject the Repository and use its methods instead of direct model access")
    );
}

#[test]
fn bl003_interface_files_exempt() {
    let vs = business_logic::check(
        "app/Services/RaceServiceInterface.php",
        "Race::where('active', true);",
    );
    assert!(vs.is_empty());
}

#[test]
fn bl002_all_and_first_count_in_ui() {
    let vs = business_logic::check(
        "app/Http/Controllers/C.php",
        "User::first();\nMarket::all();",
    );
    assert_eq!(vs.len(), 2);
    assert_eq!(vs[0].line, 1);
    assert_eq!(vs[1].line, 2);
}

#[test]
fn bl001_and_bl002_can_hit_one_line() {
    let vs = business_logic::check(
        "app/Filament/Resources/R.php",
        "DB::transaction(fn () => Race::create($d));",
    );
    assert_eq!(vs.len(), 2);
    assert_eq!(vs[0].rule_code, "BL001");
    assert_eq!(vs[1].rule_code, "BL002");
}

// Aggregation ----------------------------------------------------------

#[test]
fn end_to_end_filament_resource() {
    let vs = check_file(
        "app/Filament/Resources/RaceResource.php",
        "dd($race);\nRace::create($data);",
    );
    assert_eq!(vs.len(), 2);
    assert_eq!(vs[0].rule_code, "DBG001");
    assert_eq!(vs[0].line, 1);
    assert_eq!(vs[1].rule_code, "BL002");
    assert_eq!(vs[1].line, 2);
    assert_eq!(vs[1].code_snippet, "Race::create($data);");
}

#[test]
fn clean_files_yield_empty_run() {
    let files = vec![
        SourceFile {
            path: String::from("app/Models/Race.php"),
            content: String::from("class Race {}\n"),
        },
        SourceFile {
            path: String::from("app/Filament/Resources/R.php"),
            content: String::from("$form->schema([]);\n"),
        },
    ];
    let vs = check_files(&files);
    assert!(vs.is_empty());
}

#[test]
fn vendored_files_are_excluded() {
    let files = vec![
        SourceFile {
            path: String::from("app/vendor/pkg/Filament/Bad.php"),
            content: String::from("dd($x);\nRace::create($d);\n"),
        },
    ];
    let vs = check_files(&files);
    assert!(vs.is_empty());
    // A leading vendor segment, with no slash before it, counts too.
    let files = vec![
        SourceFile {
            path: String::from("vendor/lib/Filament/Hack.php"),
            content: String::from("DB::transaction(fn () => Race::create($d));"),
        },
    ];
    let vs = check_files(&files);
    assert!(vs.is_empty());
    // A directory merely named like it does not: the segment must be
    // exactly `vendor`.
    let files = vec![
        SourceFile {
            path: String::from("vendors/Filament/A.php"),
            content: String::from("dd($x);"),
        },
    ];
    let vs = check_files(&files);
    assert_eq!(vs.len(), 1);
    // The same file outside a vendor directory is checked.
    let files = vec![
        SourceFile {
            path: String::from("app/Filament/Bad.php"),
            content: String::from("dd($x);\nRace::create($d);\n"),
        },
    ];
    let vs = check_files(&files);
    assert_eq!(vs.len(), 2);
}

#[test]
fn run_keeps_discovery_order() {
    let files = vec![
        SourceFile {
            path: String::from("b/Filament/B.php"),
            content: String::from("dd($x);"),
        },
        SourceFile {
            path: String::from("a/Filament/A.php"),
            content: String::from("ray($y);"),
        },
    ];
    let vs = check_files(&files);
    assert_eq!(vs.len(), 2);
    assert_eq!(vs[0].file, "b/Filament/B.php");
    assert_eq!(vs[1].file, "a/Filament/A.php");
}

#[test]
fn empty_content_yields_nothing() {
    assert!(check_file("app/Filament/X.php", "").is_empty());
}
