use denote::date::DateTime;
use denote::error::Error;
use denote::filename::{parse_file_name, relative_path_of};
use denote::id::Id;
use denote::note::{get_note_from_markdown, parse_front_matter, FrontMatter, Metadata, Note};
use denote::paths::{join_paths, name_from_relative_path, path_components, path_is_relative};
use denote::repository::NotesRepository;

fn make_metadata() -> Metadata {
    let id = Id::from_str("20220707T142708").unwrap();
    let title = "This is a title".to_owned();
    let keywords = vec!["k1".to_owned(), "k2".to_owned()];
    let extension = "md".to_owned();
    Metadata::new(id, title, keywords, extension)
}

fn repo() -> NotesRepository {
    NotesRepository::open_with("/base", true).unwrap()
}

fn make_note() -> Note {
    Note::new(make_metadata(), "This is my note".to_owned())
}

#[test]
fn test_id_sorting() {
    let id1 = Id::from_str("20220707T142708").unwrap();
    let id2 = Id::from_str("2022070lT142709").unwrap();
    let id3 = Id::from_str("2022070lT142709").unwrap();

    assert_eq!(id2, id3);
    assert!(id1 < id2)
}

#[test]
fn test_slugify_title_when_creating_metadata() {
    let id = Id::from_str("20220707T142708").unwrap();
    let title = "This is a title".to_owned();
    let keywords = vec!["k1".to_owned(), "k2".to_owned()];
    let extension = "md".to_owned();
    let metadata = Metadata::new(id, title, keywords, extension);

    assert_eq!(metadata.slug(), "this-is-a-title");
}

#[test]
fn test_parse_info_from_file_name() {
    let name = "20220707T142708--this-is-a-title__k1_k2.md";

    let file_info = parse_file_name(name).unwrap();

    assert_eq!(file_info.id.as_str(), "20220707T142708");
    assert_eq!(file_info.slug.as_str(), "this-is-a-title");
    assert_eq!(&file_info.keywords, &["k1", "k2"]);
    assert_eq!(file_info.extension.as_str(), "md");
}

#[test]
fn test_generate_suitable_file_path_for_note() {
    let note = make_note();
    assert_eq!(
        note.relative_path(),
        "2022/20220707T142708--this-is-a-title__k1_k2.md"
    );
}

#[test]
fn test_error_when_trying_to_load_notes_from_a_file() {
    NotesRepository::open("src/lib.rs").unwrap_err();
}

#[test]
fn test_saving_and_loading() {
    let temp_dir = tempfile::Builder::new()
        .prefix("test-denotes")
        .tempdir()
        .unwrap();
    let base = temp_dir.path().to_str().unwrap();
    let notes = NotesRepository::open(base).unwrap();
    let note = make_note();
    let plan = notes.save(&note).unwrap();

    let relative_path = &note.relative_path();
    assert_eq!(&plan.relative_path, relative_path);
    let saved = notes.load(relative_path, plan.contents).unwrap();
    assert_eq!(note, saved);
}

#[test]
fn test_generating_front_matter() {
    let note = make_note();
    let original = note.front_matter();
    let dumped = original.dump();

    let parsed = FrontMatter::parse(&dumped).unwrap();
    assert_eq!(parsed.title(), original.title());
}

#[test]
fn test_load_front_matter_from_contents() {
    let note = make_note();
    let _contents = note.dump();
}

// Identifiers

#[test]
fn id_of_fifteen_characters_with_t_parses() {
    let id = Id::from_str("20220707T142708").unwrap();
    assert_eq!(id.as_str(), "20220707T142708");
}

#[test]
fn id_of_fourteen_characters_is_a_parse_error() {
    assert!(matches!(
        Id::from_str("2022070T142708"),
        Err(Error::ParseError(_))
    ));
}

#[test]
fn id_without_t_in_the_middle_is_a_parse_error() {
    assert!(matches!(
        Id::from_str("20220707X142708"),
        Err(Error::ParseError(_))
    ));
}

#[test]
fn id_counts_characters_not_bytes() {
    assert!(Id::from_str("2022é707T142708").is_ok());
    assert!(Id::from_str("").is_err());
}

#[test]
fn human_date_of_an_id() {
    let id = Id::from_str("20220707T142708").unwrap();
    assert_eq!(id.human_date(), "2022-07-07 14:27:08");
}

#[test]
fn year_of_an_id() {
    let id = Id::from_str("20220707T142708").unwrap();
    assert_eq!(id.year(), "2022");
}

#[test]
fn id_from_a_date_is_zero_padded() {
    let date = DateTime { year: 2022, month: 7, day: 7, hour: 14, minute: 27, second: 8 };
    assert_eq!(Id::from_date(&date).as_str(), "20220707T142708");
    let early = DateTime { year: 5, month: 1, day: 2, hour: 0, minute: 0, second: 9 };
    assert_eq!(Id::from_date(&early).as_str(), "00050102T000009");
}

#[test]
fn cloned_id_is_equal() {
    let id = Id::from_str("20220707T142708").unwrap();
    assert_eq!(id.clone(), id);
}

// File names

#[test]
fn file_name_round_trip() {
    let id = Id::from_str("20230102T030405").unwrap();
    let keywords = vec!["rust".to_owned(), "verus".to_owned(), "notes".to_owned()];
    let path = relative_path_of(&id, "a-b-c", &keywords, "org");
    assert_eq!(path, "2023/20230102T030405--a-b-c__rust_verus_notes.org");
    let name = name_from_relative_path(&path);
    let info = parse_file_name(&name).unwrap();
    assert_eq!(info.id, id);
    assert_eq!(info.slug, "a-b-c");
    assert_eq!(info.keywords, keywords);
    assert_eq!(info.extension, "org");
}

#[test]
fn file_name_slug_ends_at_first_double_underscore() {
    let info = parse_file_name("20220707T142708--a__b__c.txt").unwrap();
    assert_eq!(info.slug, "a");
    assert_eq!(info.keywords, vec!["b".to_owned(), "".to_owned(), "c".to_owned()]);
    assert_eq!(info.extension, "txt");
}

#[test]
fn file_name_extension_follows_last_dot() {
    let info = parse_file_name("20220707T142708--s__k.v1.md").unwrap();
    assert_eq!(info.keywords, vec!["k.v1".to_owned()]);
    assert_eq!(info.extension, "md");
}

#[test]
fn file_name_empty_keywords_give_none() {
    let info = parse_file_name("20220707T142708--s__.md").unwrap();
    assert!(info.keywords.is_empty());
    let id = Id::from_str("20220707T142708").unwrap();
    let path = relative_path_of(&id, "s", &Vec::new(), "md");
    assert_eq!(path, "2022/20220707T142708--s__.md");
}

#[test]
fn file_names_with_line_breaks_are_refused() {
    for name in [
        "20220707T142708--a\nb__k.md",
        "20220707T142708--ab__k\nl.md",
        "20220707T142708--ab__kl.md\n",
    ] {
        assert!(matches!(parse_file_name(name), Err(Error::ParseError(_))));
    }
}

#[test]
fn file_name_errors() {
    for name in [
        "",
        "notes.md",
        "20220707T142708--this-is-a-title.md",
        "20220707T142708--this-is-a-title__k1_k2",
        "20220707T142708--this-is-a-title__k1_k2.MD",
        "20220707T142708--this-is-a-title__k1_k2.",
        "2022070xT142708--this-is-a-title__k1_k2.md",
        "20220707X142708--this-is-a-title__k1_k2.md",
        "20220707T142708-this-is-a-title__k1_k2.md",
        "20220707T142708--title.md__k1",
        "x20220707T142708--this-is-a-title__k1_k2.md",
    ] {
        assert!(
            matches!(parse_file_name(name), Err(Error::ParseError(_))),
            "{name}"
        );
    }
}

#[test]
fn path_derivation() {
    let metadata = make_metadata();
    assert_eq!(
        metadata.relative_path(),
        "2022/20220707T142708--this-is-a-title__k1_k2.md"
    );
}

// Paths

#[test]
fn path_components_skip_empty_and_dot_segments() {
    assert_eq!(
        path_components("./2022//a.md/"),
        vec!["2022".to_owned(), "a.md".to_owned()]
    );
    assert_eq!(name_from_relative_path("2022/a.md"), "a.md");
    assert!(path_is_relative("2022/a.md"));
    assert!(!path_is_relative("/2022/a.md"));
    assert_eq!(join_paths("/base", "2022/a.md"), "/base/2022/a.md");
    assert_eq!(join_paths("/base/", "2022/a.md"), "/base/2022/a.md");
    assert_eq!(join_paths("", "2022/a.md"), "2022/a.md");
}

// Front matter

#[test]
fn front_matter_of_metadata() {
    let fm = make_metadata().front_matter();
    assert_eq!(fm.title(), "This is a title");
    assert_eq!(fm.date(), "2022-07-07 14:27:08");
    assert_eq!(fm.keywords(), vec!["k1".to_owned(), "k2".to_owned()]);
    assert_eq!(fm.slug(), "this-is-a-title");
}

#[test]
fn front_matter_round_trip() {
    let metadata = make_metadata();
    let fm = metadata.front_matter();
    let dumped = fm.dump();
    assert!(dumped.contains("title: This is a title"));
    let parsed = FrontMatter::parse(&dumped).unwrap();
    assert_eq!(parsed, fm);
    assert_eq!(parsed.title(), metadata.title());
    assert_eq!(parsed.keywords(), metadata.keywords().to_vec());
}

#[test]
fn front_matter_round_trip_with_yaml_special_characters() {
    let id = Id::from_str("20220707T142708").unwrap();
    let title = "A: title # with 'quotes' and \"more\"".to_owned();
    let metadata = Metadata::new(id, title, vec!["x".to_owned()], "md".to_owned());
    let fm = metadata.front_matter();
    let parsed = FrontMatter::parse(&fm.dump()).unwrap();
    assert_eq!(parsed.title(), metadata.title());
}

#[test]
fn front_matter_parse_errors() {
    assert!(matches!(
        FrontMatter::parse("title: t\ndate: d\n"),
        Err(Error::ParseError(_))
    ));
    assert!(matches!(
        FrontMatter::parse("title: [unclosed"),
        Err(Error::ParseError(_))
    ));
    assert!(matches!(
        FrontMatter::parse("- a list\n"),
        Err(Error::ParseError(_))
    ));
}

#[test]
fn front_matter_ignores_extra_keys() {
    let fm = FrontMatter::parse("title: t\ndate: d\nkeywords: a b\nextra: e\n").unwrap();
    assert_eq!(fm.title(), "t");
    assert_eq!(fm.keywords(), vec!["a".to_owned(), "b".to_owned()]);
}

#[test]
fn splitting_note_text() {
    let (fm, body) =
        parse_front_matter("---\ntitle: t\ndate: d\nkeywords: k\n---\nbody\n---\nmore").unwrap();
    assert_eq!(fm.title(), "t");
    assert_eq!(body, "body\n---\nmore");
}

#[test]
fn splitting_note_text_errors() {
    assert!(matches!(
        parse_front_matter("title: t\n---\nbody"),
        Err(Error::ParseError(_))
    ));
    assert!(matches!(
        parse_front_matter("---\ntitle: t\ndate: d\nkeywords: k\n"),
        Err(Error::ParseError(_))
    ));
    assert!(matches!(
        parse_front_matter("---\nnot: enough\n---\nbody"),
        Err(Error::ParseError(_))
    ));
}

#[test]
fn note_dump_and_reload() {
    let note = make_note();
    let text = note.dump();
    assert!(text.starts_with("---\n"));
    assert!(text.ends_with("---\nThis is my note"));
    let (fm, body) = parse_front_matter(&text).unwrap();
    assert_eq!(fm, note.front_matter());
    assert_eq!(body, "This is my note");
    let id = Id::from_str("20220707T142708").unwrap();
    let reloaded = get_note_from_markdown(id, text).unwrap();
    assert_eq!(reloaded, note);
}

#[test]
fn note_update_takes_title_and_keywords() {
    let mut note = make_note();
    let fm = FrontMatter::parse("title: New Title\ndate: d\nkeywords: x y\n").unwrap();
    note.update(&fm);
    assert_eq!(note.metadata().title(), "New Title");
    assert_eq!(note.metadata().slug(), "new-title");
    assert_eq!(note.metadata().keywords(), &["x".to_owned(), "y".to_owned()]);
    assert_eq!(note.id(), "20220707T142708");
    assert_eq!(note.text(), "This is my note");
    assert_eq!(
        note.relative_path(),
        "2022/20220707T142708--new-title__x_y.md"
    );
}

// Repository

#[test]
fn opening_a_file_is_an_os_error() {
    assert!(matches!(
        NotesRepository::open("src/lib.rs"),
        Err(Error::OSError(_))
    ));
    assert!(matches!(
        NotesRepository::open_with("/somewhere", false),
        Err(Error::OSError(_))
    ));
    let repo = NotesRepository::open_with("/somewhere", true).unwrap();
    assert_eq!(repo.base_path(), "/somewhere");
}

#[test]
fn opening_a_directory() {
    let temp_dir = tempfile::tempdir().unwrap();
    let base = temp_dir.path().to_str().unwrap();
    let repo = NotesRepository::open(base).unwrap();
    assert_eq!(repo.base_path(), base);
}

#[test]
fn full_path_refuses_absolute_paths() {
    let repo = NotesRepository::open_with("/base", true).unwrap();
    assert_eq!(repo.full_path("2022/a.md").unwrap(), "/base/2022/a.md");
    assert!(matches!(repo.full_path("/2022/a.md"), Err(Error::OSError(_))));
}

#[test]
fn loading_refuses_bad_paths() {
    let contents = make_note().dump();
    assert!(matches!(
        repo().load("/2022/20220707T142708--this-is-a-title__k1_k2.md", contents.clone()),
        Err(Error::OSError(_))
    ));
    assert!(matches!(
        repo().load("20220707T142708--this-is-a-title__k1_k2.md", contents.clone()),
        Err(Error::ParseError(_))
    ));
    assert!(matches!(
        repo().load("2022/notes.md", contents),
        Err(Error::ParseError(_))
    ));
}

#[test]
fn loading_takes_the_id_from_the_file_name() {
    let contents = make_note().dump();
    let note =
        repo().load("2023/20230101T000000--old-name__k.md", contents).unwrap();
    assert_eq!(note.id(), "20230101T000000");
    assert_eq!(note.metadata().title(), "This is a title");
    assert_eq!(note.metadata().extension(), "md");
}

#[test]
fn saving_creates_the_missing_year_directory_only() {
    let repo = NotesRepository::open_with("/base", true).unwrap();
    let note = make_note();
    let plan = repo.plan_save(&note, false, false).unwrap();
    assert_eq!(plan.create_dir.as_deref(), Some("/base/2022"));
    assert_eq!(
        plan.full_path,
        "/base/2022/20220707T142708--this-is-a-title__k1_k2.md"
    );
    assert_eq!(plan.relative_path, "2022/20220707T142708--this-is-a-title__k1_k2.md");
    assert_eq!(plan.contents, note.dump());
    let existing = repo.plan_save(&note, true, false).unwrap();
    assert_eq!(existing.create_dir, None);
}

#[test]
fn saving_over_a_file_in_place_of_the_year_directory_fails() {
    let repo = NotesRepository::open_with("/base", true).unwrap();
    let note = make_note();
    assert!(matches!(
        repo.plan_save(&note, true, true),
        Err(Error::OSError(_))
    ));
}

#[test]
fn preparing_a_save_in_an_empty_directory() {
    let temp_dir = tempfile::tempdir().unwrap();
    let base = temp_dir.path().to_str().unwrap();
    let repo = NotesRepository::open(base).unwrap();
    let plan = repo.save(&make_note()).unwrap();
    assert_eq!(plan.create_dir, Some(format!("{base}/2022")));
}

#[test]
fn update_renames_a_stale_note_once() {
    let contents = make_note().dump();
    let stale = "2022/20220707T142708--old-title__old.md";
    let note = repo().load(stale, contents.clone()).unwrap();
    let target = NotesRepository::rename_target(stale, &note).unwrap().unwrap();
    assert_eq!(target, "2022/20220707T142708--this-is-a-title__k1_k2.md");
    let again = repo().load(&target, contents).unwrap();
    assert_eq!(again, note);
    assert_eq!(NotesRepository::rename_target(&target, &again).unwrap(), None);
    assert_eq!(NotesRepository::rename_target(&format!("./{target}"), &again).unwrap(), None);
}

#[test]
fn drafts_become_notes() {
    let draft = "---\ntitle: My Draft\ndate: 2022-07-07 14:27\nkeywords: a b\n---\nText".to_owned();
    let date = DateTime { year: 2022, month: 7, day: 7, hour: 14, minute: 27, second: 8 };
    let note = NotesRepository::note_from_draft(draft.clone(), &date).unwrap();
    assert_eq!(note.relative_path(), "2022/20220707T142708--my-draft__a_b.md");
    assert_eq!(note.text(), "Text");
    let now = NotesRepository::draft_note(draft).unwrap();
    assert_eq!(now.id().len(), 15);
    assert_eq!(now.id().chars().nth(8), Some('T'));
    assert_eq!(now.metadata().title(), "My Draft");
}

#[test]
fn drafts_need_a_title() {
    let date = DateTime { year: 2022, month: 7, day: 7, hour: 14, minute: 27, second: 8 };
    let untitled = "---\ntitle: ''\ndate: d\nkeywords: a\n---\nText".to_owned();
    assert!(matches!(
        NotesRepository::note_from_draft(untitled, &date),
        Err(Error::ParseError(_))
    ));
    let no_front_matter = "Text".to_owned();
    assert!(matches!(
        NotesRepository::note_from_draft(no_front_matter, &date),
        Err(Error::ParseError(_))
    ));
    let far = DateTime { year: 12000, month: 7, day: 7, hour: 14, minute: 27, second: 8 };
    let draft = "---\ntitle: t\ndate: d\nkeywords: a\n---\n".to_owned();
    assert!(matches!(
        NotesRepository::note_from_draft(draft, &far),
        Err(Error::ParseError(_))
    ));
}

#[test]
fn error_messages() {
    assert_eq!(Error::ParseError("x".to_owned()).message(), "parse error: x");
    assert_eq!(Error::OSError("y".to_owned()).message(), "os error: y");
}


fn note_with(title: &str, keywords: &[&str], extension: &str) -> Note {
    let id = Id::from_str("20220707T142708").unwrap();
    let keywords = keywords.iter().map(|k| k.to_string()).collect();
    let metadata = Metadata::new(id, title.to_owned(), keywords, extension.to_owned());
    Note::new(metadata, "body".to_owned())
}

#[test]
fn loading_takes_the_extension_from_the_file_name() {
    let note = note_with("A", &["k"], "txt");
    let plan = repo().save(&note).unwrap();
    assert_eq!(plan.relative_path, "2022/20220707T142708--a__k.txt");
    let loaded = repo().load(&plan.relative_path, plan.contents.clone()).unwrap();
    assert_eq!(loaded.metadata().extension(), "txt");
    assert_eq!(loaded, note);
    assert_eq!(
        repo().update(&plan.relative_path, plan.contents).unwrap(),
        plan.relative_path
    );
}

#[test]
fn notes_without_keywords_keep_none() {
    let note = note_with("A", &[], "md");
    let fm = note.front_matter();
    assert!(fm.keywords().is_empty());
    let parsed = FrontMatter::parse(&fm.dump()).unwrap();
    assert!(parsed.keywords().is_empty());
    let plan = repo().save(&note).unwrap();
    assert_eq!(plan.relative_path, "2022/20220707T142708--a__.md");
    assert_eq!(repo().load(&plan.relative_path, plan.contents).unwrap(), note);
}

#[test]
fn undecodable_names_are_refused_on_save_and_rename() {
    for keywords in [
        vec!["a/b"],
        vec!["a__b"],
        vec!["a--b"],
        vec!["_a"],
        vec!["a_"],
        vec!["a", ""],
        vec!["line\nbreak"],
    ] {
        let note = note_with("Title", &keywords, "md");
        assert!(
            matches!(repo().plan_save(&note, true, false), Err(Error::ParseError(_))),
            "{keywords:?}"
        );
        assert!(matches!(
            NotesRepository::rename_target("2022/x.md", &note),
            Err(Error::ParseError(_))
        ));
    }
    let fine = note_with("Title", &["a_b", "c"], "md");
    assert!(repo().plan_save(&fine, true, false).is_ok());
}

#[test]
fn update_moves_a_stale_note_and_then_stays() {
    let contents = make_note().dump();
    let stale = "2022/20220707T142708--old-title__old.md";
    let first = repo().update(stale, contents.clone()).unwrap();
    assert_eq!(first, "2022/20220707T142708--this-is-a-title__k1_k2.md");
    let second = repo().update(&first, contents.clone()).unwrap();
    assert_eq!(second, first);
    assert!(matches!(repo().update("/abs/x.md", contents.clone()), Err(Error::OSError(_))));
    assert!(matches!(repo().update("2022/x.md", contents), Err(Error::ParseError(_))));
}

#[test]
fn update_refuses_keywords_that_leave_the_year_directory() {
    let contents = "---\ntitle: T\ndate: d\nkeywords: a/b\n---\nbody".to_owned();
    assert!(matches!(
        repo().update("2022/20220707T142708--t__x.md", contents),
        Err(Error::ParseError(_))
    ));
}
