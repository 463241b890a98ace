use quake_map::editor::io::{after_read_directory, DirectoryStep, FileEditorIo, MapIoError};
use quake_map::editor::reorderable_list::{apply_movement, item_position, ItemAction, ItemPosition};
use quake_map::editor::document::{indicator_for, DocumentState, SavePlan};
use quake_map::editor::tab_layout::{DocumentId, TabLayoutState};
use quake_map::editor::GameSettings;
use quake_map::loader::asset_provider::{
    collection_dir, first_source, next_source, FileTextureLoadError, TextureSource,
};
use quake_map::loader::spawner::MapSpawner;
use quake_map::loader::MapError;
use quake_map::game_config::{
    FilesystemSettings, GameConfig, MapFormat, ModelFormat, PackageFormat, PackageFormatConfig,
    TextureFormat, TexturePackageType, TextureSettings,
};

#[test]
fn default_game_config() {
    let config = GameConfig::default();
    assert_eq!(config.version, 4);
    assert_eq!(config.name, "A Quake Map");
    assert_eq!(config.file_formats.len(), 1);
    assert_eq!(config.file_formats[0].format, MapFormat::Valve);
    assert_eq!(config.file_formats[0].initial_map, Some("initial_valve.map".to_string()));
    assert!(config.entities.definitions.is_empty());
    assert_eq!(config.entities.default_color, "0.6 0.6 0.6 1.0");
    assert_eq!(config.entities.model_formats, vec![ModelFormat::Obj]);
    assert!(config.tags.brush.is_empty());
    assert!(config.tags.brush_face.is_empty());
    assert!(config.face_attribs.surface_flags.is_empty());
    assert!(config.face_attribs.content_flags.is_empty());
    assert!(config.soft_map_bounds.is_none());
    assert!(config.compilation_tools.is_none());
}

#[test]
fn default_filesystem_and_textures() {
    let files = FilesystemSettings::default();
    assert_eq!(files.search_path, ".");
    match files.package_format {
        PackageFormatConfig::Extension { extension, format } => {
            assert_eq!(extension, "pak");
            assert_eq!(format, PackageFormat::IdPak);
        }
        _ => panic!("one extension expected"),
    }
    let textures = TextureSettings::default();
    match textures.package {
        TexturePackageType::Directory { root } => assert_eq!(root, "textures"),
        _ => panic!("a directory expected"),
    }
    match textures.format {
        PackageFormatConfig::Extensions { extensions, format } => {
            assert_eq!(extensions, vec!["png", "jpg", "jpeg"]);
            assert_eq!(format, TextureFormat::Image);
        }
        _ => panic!("several extensions expected"),
    }
    assert_eq!(textures.palette, None);
    assert_eq!(textures.attribute, Some("_tb_textures".to_string()));
}

#[test]
fn moving_and_removing_items() {
    let mut list = vec!['a', 'b', 'c', 'd'];
    assert!(!apply_movement(0, ItemAction::MoveUp, &mut list));
    assert_eq!(list, vec!['a', 'b', 'c', 'd']);
    assert!(apply_movement(2, ItemAction::MoveUp, &mut list));
    assert_eq!(list, vec!['a', 'c', 'b', 'd']);
    assert!(apply_movement(0, ItemAction::MoveDown, &mut list));
    assert_eq!(list, vec!['c', 'a', 'b', 'd']);
    assert!(apply_movement(2, ItemAction::MoveDown, &mut list));
    assert_eq!(list, vec!['c', 'a', 'd', 'b']);
    assert!(apply_movement(3, ItemAction::Remove, &mut list));
    assert_eq!(list, vec!['c', 'a', 'd']);
    assert!(apply_movement(0, ItemAction::Remove, &mut list));
    assert_eq!(list, vec!['a', 'd']);
    // Moving the first item up changes nothing, whatever the list holds.
    let mut empty: Vec<char> = Vec::new();
    assert!(!apply_movement(0, ItemAction::MoveUp, &mut empty));
    assert!(empty.is_empty());
}

#[test]
fn positions_in_a_list() {
    assert_eq!(item_position(0, 1), ItemPosition::Only);
    assert_eq!(item_position(0, 3), ItemPosition::First);
    assert_eq!(item_position(1, 3), ItemPosition::Middle);
    assert_eq!(item_position(2, 3), ItemPosition::Last);
    assert_eq!(item_position(1, 2), ItemPosition::Last);
}

#[test]
fn settings_and_files() {
    let settings = GameSettings::default();
    assert_eq!(settings.name, "New Game");
    assert_eq!(settings.description, "");
    assert_eq!(settings.save_path(), "settings.ron");
    assert_eq!(settings.name(), "settings");
    let io = FileEditorIo::new("projects/demo");
    assert_eq!(io.root(), "projects/demo");
    assert!(matches!(after_read_directory(Ok(())), DirectoryStep::Done));
    assert!(matches!(
        after_read_directory(Err(MapIoError::NotFound("maps".to_string()))),
        DirectoryStep::Create
    ));
    match after_read_directory(Err(MapIoError::StdIo("denied".to_string()))) {
        DirectoryStep::Fail(MapIoError::StdIo(reason)) => assert_eq!(reason, "denied"),
        _ => panic!("a failure expected"),
    }
}

#[test]
fn first_texture_collection() {
    assert_eq!(collection_dir(None), Err(FileTextureLoadError::MissingTextureCollections));
    let empty: Vec<Vec<u8>> = Vec::new();
    assert_eq!(collection_dir(Some(&empty)), Err(FileTextureLoadError::EmptyTextureCollections));
    let list = vec![b"textures/map".to_vec(), b"other".to_vec()];
    assert_eq!(collection_dir(Some(&list)), Ok(&b"textures/map".to_vec()));
}

#[test]
fn document_states() {
    assert!(matches!(DocumentState::Clean.after_write(), DocumentState::Modified));
    assert!(matches!(DocumentState::New.after_write(), DocumentState::New));
    assert!(matches!(DocumentState::Modified.after_write(), DocumentState::Modified));
    match DocumentState::Renamed("a.ron".to_string()).after_write() {
        DocumentState::Renamed(path) => assert_eq!(path, "a.ron"),
        _ => panic!("still renamed expected"),
    }

    assert!(matches!(DocumentState::New.after_rename("a.ron".to_string()), DocumentState::New));
    match DocumentState::Clean.after_rename("a.ron".to_string()) {
        DocumentState::Renamed(path) => assert_eq!(path, "a.ron"),
        _ => panic!("renamed expected"),
    }
    match DocumentState::Modified.after_rename("a.ron".to_string()) {
        DocumentState::Renamed(path) => assert_eq!(path, "a.ron"),
        _ => panic!("renamed expected"),
    }
    match DocumentState::Renamed("first.ron".to_string()).after_rename("second.ron".to_string()) {
        DocumentState::Renamed(path) => assert_eq!(path, "first.ron"),
        _ => panic!("renamed expected"),
    }

    assert!(matches!(DocumentState::Clean.save_plan("b.ron".to_string()), SavePlan::Nothing));
    match DocumentState::New.save_plan("b.ron".to_string()) {
        SavePlan::Write { delete, path } => {
            assert_eq!(delete, None);
            assert_eq!(path, "b.ron");
        }
        _ => panic!("a write expected"),
    }
    match DocumentState::Renamed("a.ron".to_string()).save_plan("b.ron".to_string()) {
        SavePlan::Write { delete, path } => {
            assert_eq!(delete, Some("a.ron".to_string()));
            assert_eq!(path, "b.ron");
        }
        _ => panic!("a write expected"),
    }

    assert_eq!(DocumentState::New.delete_plan("b.ron".to_string()), None);
    assert_eq!(DocumentState::Clean.delete_plan("b.ron".to_string()), Some("b.ron".to_string()));
    assert_eq!(DocumentState::Modified.delete_plan("b.ron".to_string()), Some("b.ron".to_string()));
    assert_eq!(
        DocumentState::Renamed("a.ron".to_string()).delete_plan("b.ron".to_string()),
        Some("a.ron".to_string())
    );
}

#[test]
fn opening_and_closing_tabs() {
    let mut tabs = TabLayoutState::new();
    assert!(tabs.open_or(DocumentId(7)));
    assert!(tabs.open_or(DocumentId(3)));
    assert!(!tabs.open_or(DocumentId(7)));
    assert_eq!(tabs.tabs, vec![DocumentId(7), DocumentId(3)]);
    assert_eq!(tabs.selected_tab, Some(DocumentId(7)));
    assert!(!tabs.close(DocumentId(9)));
    assert!(tabs.close(DocumentId(3)));
    assert_eq!(tabs.tabs, vec![DocumentId(7)]);
    assert_eq!(tabs.selected_tab, Some(DocumentId(7)));
    assert!(tabs.close(DocumentId(7)));
    assert!(tabs.tabs.is_empty());
    assert_eq!(tabs.selected_tab, None);
}

#[test]
fn levels_that_are_not_loaded_wait() {
    let mut spawner = MapSpawner::new();
    spawner.spawn(4);
    spawner.spawn(5);
    spawner.spawn(6);
    let queued = spawner.take_queued();
    assert_eq!(queued, vec![4, 5, 6]);
    assert!(spawner.queued_maps.is_empty());
    spawner.spawn(9);
    spawner.requeue(&queued, &vec![false, true, false]);
    assert_eq!(spawner.queued_maps, vec![9, 4, 6]);
}

#[test]
fn signs_of_document_states() {
    assert_eq!(indicator_for(&DocumentState::New), "\u{2b55}");
    assert_eq!(indicator_for(&DocumentState::Modified), "\u{2b55}");
    assert_eq!(indicator_for(&DocumentState::Clean), "\u{2705}");
    assert_eq!(indicator_for(&DocumentState::Renamed("x".to_string())), "R");
}

#[test]
fn which_texture_to_ask_for() {
    assert_eq!(first_source(&b"__TB_empty".to_vec()), TextureSource::Default);
    assert_eq!(first_source(&b"map/grass".to_vec()), TextureSource::Named);
    assert_eq!(next_source(TextureSource::Named), Ok(TextureSource::Missing));
    assert_eq!(next_source(TextureSource::Default), Err(MapError::DefaultTextureLoadFailed));
    assert_eq!(next_source(TextureSource::Missing), Err(MapError::MissingTextureLoadFailed));
}
