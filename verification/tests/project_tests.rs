use fire_front::diagnostics::{CompileException, ProjectStructureException};
use fire_front::files::{
    get_all_project_files, verify_project_format, FsEntry, ProjectShape, UncompiledFireFile,
};
use fire_front::location::FireLocation;
use fire_front::table::{StructuredFireProject, UncompiledFireResource, UncompiledResourceType};

fn seg(text: &str) -> String {
    text.to_string()
}

fn loc_of(segments: &[&str]) -> FireLocation {
    let mut l = FireLocation::new();
    for s in segments {
        l.push(seg(s));
    }
    l
}

#[test]
fn location_with_parent_push_pop() {
    let root = FireLocation::new();
    assert_eq!(root.len(), 0);
    let a = root.with(seg("game"));
    let ab = a.with(seg("Struct"));
    assert_eq!(ab.len(), 2);
    assert_eq!(ab.render(), "game::Struct");
    assert_eq!(ab.parent().render(), "game");
    assert_eq!(root.parent().len(), 0);
    let mut m = ab.clone();
    m.push(seg("method"));
    assert_eq!(m.render(), "game::Struct::method");
    m.pop();
    assert!(m == ab);
    assert!(m != a);
}

#[test]
fn table_insert_lookup_and_duplicate() {
    let mut table = StructuredFireProject::new();
    let p = loc_of(&["game", "hello"]);
    let first = UncompiledFireResource {
        loc: p.clone(),
        resource_type: UncompiledResourceType::Function,
    };
    assert!(table.add_resource(&p, first).is_ok());
    let second = UncompiledFireResource {
        loc: p.clone(),
        resource_type: UncompiledResourceType::Struct,
    };
    match table.add_resource(&p, second) {
        Err(CompileException::DuplicateResource(at)) => {
            assert_eq!(at.render(), "game::hello");
        }
        other => panic!("expected a duplicate-resource diagnostic, got {:?}", other.is_ok()),
    }
    // The first entry is retained.
    let kept = table.get_resource(&p).expect("the location must stay filled");
    assert!(matches!(kept.resource_type, UncompiledResourceType::Function));
    assert!(table.get_resource(&loc_of(&["game", "other"])).is_none());
}

#[test]
fn duplicate_across_two_files_keeps_first() {
    let mut table = StructuredFireProject::new();
    let one = UncompiledFireFile::new(loc_of(&["game"]), "src/game.fire".to_string());
    one.structure_into("fn hello() {}", &mut table).expect("first file must structure");
    let two = UncompiledFireFile::new(loc_of(&["game"]), "src/game2.fire".to_string());
    match two.structure_into("struct hello {}", &mut table) {
        Err(CompileException::DuplicateResource(at)) => {
            assert_eq!(at.render(), "game::hello");
        }
        Err(other) => panic!("wrong diagnostic: {}", other.message()),
        Ok(_) => panic!("the collision must be reported"),
    }
    let kept = table
        .get_resource(&loc_of(&["game", "hello"]))
        .expect("the location must stay filled");
    assert!(matches!(kept.resource_type, UncompiledResourceType::Function));
}

#[test]
fn structuring_collects_top_level_declarations_only() {
    let mut table = StructuredFireProject::new();
    let text = "import other\n\
                fn hello() { let inner = 1 }\n\
                pc run() {}\n\
                struct Point { fn norm() {} }\n\
                trait Drawable {}\n\
                enum Color {}\n\
                let counter = 0";
    let f = UncompiledFireFile::new(loc_of(&["game"]), "src/game.fire".to_string());
    f.structure_into(text, &mut table).expect("the file must structure");
    let expect = [
        ("hello", UncompiledResourceType::Function),
        ("run", UncompiledResourceType::Process),
        ("Point", UncompiledResourceType::Struct),
        ("Drawable", UncompiledResourceType::Trait),
        ("Color", UncompiledResourceType::Enum),
        ("counter", UncompiledResourceType::Var),
    ];
    for (name, kind) in expect {
        let at = loc_of(&["game", name]);
        let stub = table.get_resource(&at).unwrap_or_else(|| panic!("{} missing", name));
        assert_eq!(format!("{:?}", stub.resource_type), format!("{:?}", kind));
    }
    // The declaration inside the function body was passed over.
    assert!(table.get_resource(&loc_of(&["game", "inner"])).is_none());
    // The name after `import` is not a declaration keyword's name.
    assert!(table.get_resource(&loc_of(&["game", "other"])).is_some() == false);
}

#[test]
fn structuring_stops_on_lexical_error() {
    let mut table = StructuredFireProject::new();
    let f = UncompiledFireFile::new(loc_of(&["game"]), "src/game.fire".to_string());
    match f.structure_into("fn ok() {} #", &mut table) {
        Err(CompileException::UnrecognizedToken(text, _, _)) => assert_eq!(text, "#"),
        Err(other) => panic!("wrong diagnostic: {}", other.message()),
        Ok(_) => panic!("the lexical error must be reported"),
    }
    // A lexical error discards the whole file: nothing was inserted.
    assert!(table.get_resource(&loc_of(&["game", "ok"])).is_none());
}

#[test]
fn project_shape_missing_target() {
    let shape = ProjectShape {
        is_dir: true,
        has_src_dir: true,
        src_entry_count: 3,
        has_target_dir: false,
    };
    assert!(matches!(
        verify_project_format(&shape),
        Err(ProjectStructureException::NoTarget)
    ));
}

#[test]
fn project_shape_other_verdicts() {
    let good = ProjectShape {
        is_dir: true,
        has_src_dir: true,
        src_entry_count: 1,
        has_target_dir: true,
    };
    assert!(verify_project_format(&good).is_ok());
    let not_dir = ProjectShape { is_dir: false, ..good };
    assert!(matches!(verify_project_format(&not_dir), Err(ProjectStructureException::NotDir)));
    let no_src = ProjectShape { has_src_dir: false, ..good };
    assert!(matches!(verify_project_format(&no_src), Err(ProjectStructureException::NoSrc)));
    let empty_src = ProjectShape { src_entry_count: 0, ..good };
    assert!(matches!(verify_project_format(&empty_src), Err(ProjectStructureException::EmptySrc)));
}

#[test]
fn discovery_builds_nested_locations() {
    let tree = vec![
        FsEntry::Dir(seg("a"), vec![FsEntry::File(seg("b.fire"))]),
        FsEntry::File(seg("c.fire")),
    ];
    let found = get_all_project_files("src", &tree);
    assert_eq!(found.len(), 2);
    assert_eq!(found[0].location.render(), "a::b");
    assert_eq!(found[0].file_location, "src/a/b.fire");
    assert_eq!(found[1].location.render(), "c");
    assert_eq!(found[1].file_location, "src/c.fire");
}

#[test]
fn discovery_skips_other_files_and_empty_directories() {
    let tree = vec![
        FsEntry::File(seg("readme.txt")),
        FsEntry::Dir(seg("assets"), vec![FsEntry::File(seg("logo.png"))]),
        FsEntry::Dir(seg("deep"), vec![FsEntry::Dir(seg("er"), vec![])]),
        FsEntry::File(seg(".fire")),
        FsEntry::File(seg("main.fire")),
    ];
    let found = get_all_project_files("src", &tree);
    assert_eq!(found.len(), 1);
    assert_eq!(found[0].location.render(), "main");
    assert_eq!(found[0].file_location, "src/main.fire");
}

#[test]
fn diagnostic_messages() {
    assert_eq!(
        CompileException::UnrecognizedToken("#".to_string(), 3, 7).message(),
        "Unrecognized token #. At 3:7"
    );
    assert_eq!(
        CompileException::UnfinishedString(12, 0).message(),
        "Unfinished string. Started at 12:0"
    );
    assert_eq!(
        CompileException::UnrecognizedEscape(1, 250).message(),
        "Unrecognized escape code. At 1:250"
    );
    assert_eq!(
        CompileException::NoFileAccess("src/a.fire".to_string()).message(),
        "Cannot read file src/a.fire."
    );
    assert_eq!(
        CompileException::FileException("src/a.fire".to_string()).message(),
        "An error occurred inside of src/a.fire."
    );
    assert_eq!(
        CompileException::DuplicateResource(loc_of(&["game", "hello"])).message(),
        "Duplicate resource game::hello."
    );
    assert_eq!(ProjectStructureException::NotDir.message(), "Project must be a directory.");
    assert_eq!(
        ProjectStructureException::NoSrc.message(),
        "Project does not contain a src subdirectory."
    );
    assert_eq!(
        ProjectStructureException::NoTarget.message(),
        "Project does not contain a target subdirectory."
    );
    assert_eq!(
        ProjectStructureException::EmptySrc.message(),
        "Project src folder does not contain any modules."
    );
}

#[test]
fn keyword_without_a_following_name_is_skipped() {
    let mut table = StructuredFireProject::new();
    let f = UncompiledFireFile::new(loc_of(&["game"]), "src/game.fire".to_string());
    f.structure_into("fn", &mut table).expect("a bare keyword still structures");
    assert!(table.get_resource(&loc_of(&["game", "fn"])).is_none());
}

#[test]
fn unbalanced_braces_do_not_hide_later_declarations() {
    let mut table = StructuredFireProject::new();
    let f = UncompiledFireFile::new(loc_of(&["game"]), "src/game.fire".to_string());
    f.structure_into("} fn after() {}", &mut table).expect("the file must structure");
    // A stray closing brace drops the depth below zero; the declaration that
    // follows is no longer at the top level.
    assert!(table.get_resource(&loc_of(&["game", "after"])).is_none());
}
