//! The configuration of a game for a level editor: file formats, where
//! files and textures are found, entity definitions, tags and face attributes.

use crate::number::rational::Rational;
use vstd::prelude::*;
use vstd::string::StringExecFns;

verus! {

/// The formats of models that an editor can show.
#[derive(Clone, Copy, PartialEq, Eq, Debug, Structural)]
pub enum ModelFormat {
    Mdl,
    Md2,
    Md3,
    Bsp,
    Dkm,
    Obj,
}

/// Where entity definitions are found and how entities are shown.
#[derive(Debug)]
pub struct EntitySettings {
    pub definitions: Vec<String>,
    pub default_color: String,
    pub model_formats: Vec<ModelFormat>,
}

/// The formats of package files.
#[derive(Clone, Copy, PartialEq, Eq, Debug, Structural)]
pub enum PackageFormat {
    IdPak,
    DkPak,
    Zip,
}

/// The file name extensions of a format, given as one or as several.
#[derive(Debug)]
pub enum PackageFormatConfig<T> {
    Extension { extension: String, format: T },
    Extensions { extensions: Vec<String>, format: T },
}

/// Where the files of a game are found.
#[derive(Debug)]
pub struct FilesystemSettings {
    pub search_path: String,
    pub package_format: PackageFormatConfig<PackageFormat>,
}

impl FilesystemSettings {
    /// Whether files are searched in the current directory, in `pak` packages.
    pub open spec fn is_default(&self) -> bool {
        &&& self.search_path@ == "."@
        &&& self.package_format matches PackageFormatConfig::Extension { extension, format }
            && extension@ == "pak"@ && format == PackageFormat::IdPak
    }
}

impl Default for FilesystemSettings {
    /// Files are searched in the current directory, in `pak` packages.
    fn default() -> (settings: Self)
        ensures
            settings.is_default(),
    {
        FilesystemSettings {
            search_path: String::from_str("."),
            package_format: PackageFormatConfig::Extension {
                extension: String::from_str("pak"),
                format: PackageFormat::IdPak,
            },
        }
    }
}

/// The formats of archives of textures.
#[derive(Clone, Copy, PartialEq, Eq, Debug, Structural)]
pub enum FilePackageFormat {
    Wad2,
    Wad3,
}

/// The formats of textures.
#[derive(Clone, Copy, PartialEq, Eq, Debug, Structural)]
pub enum TextureFormat {
    IdMip,
    HlMip,
    DkMip,
    Wal,
    Image,
}

/// Where textures come from: archives, or a directory.
#[derive(Debug)]
pub enum TexturePackageType {
    File { format: PackageFormatConfig<FilePackageFormat> },
    Directory { root: String },
}

/// Where textures are found and in which format.
#[derive(Debug)]
pub struct TextureSettings {
    pub package: TexturePackageType,
    pub format: PackageFormatConfig<TextureFormat>,
    pub palette: Option<String>,
    pub attribute: Option<String>,
}

impl TextureSettings {
    /// Whether textures are images with the extension `png`, `jpg` or
    /// `jpeg` in the directory `textures`, without a palette, and the world
    /// entity lists the collections in use under `_tb_textures`.
    pub open spec fn is_default(&self) -> bool {
        &&& self.package matches TexturePackageType::Directory { root } && root@ == "textures"@
        &&& self.format matches PackageFormatConfig::Extensions { extensions, format } && format
            == TextureFormat::Image && extensions@.len() == 3 && extensions@[0]@ == "png"@
            && extensions@[1]@ == "jpg"@ && extensions@[2]@ == "jpeg"@
        &&& self.palette is None
        &&& self.attribute matches Some(name) && name@ == "_tb_textures"@
    }
}

impl Default for TextureSettings {
    /// Textures are images in the directory `textures`; the world entity
    /// lists the collections in use under `_tb_textures`.
    fn default() -> (settings: Self)
        ensures
            settings.is_default(),
    {
        let mut extensions: Vec<String> = Vec::new();
        extensions.push(String::from_str("png"));
        extensions.push(String::from_str("jpg"));
        extensions.push(String::from_str("jpeg"));
        TextureSettings {
            package: TexturePackageType::Directory { root: String::from_str("textures") },
            format: PackageFormatConfig::Extensions { extensions, format: TextureFormat::Image },
            palette: None,
            attribute: Some(String::from_str("_tb_textures")),
        }
    }
}

/// What a tag changes about the things it matches.
#[derive(Clone, Copy, PartialEq, Eq, Debug, Structural)]
pub enum TagAttribute {
    Transparent,
}

/// What a tag looks at to decide whether it matches.
#[derive(Clone, Copy, PartialEq, Eq, Debug, Structural)]
pub enum TagMatchType {
    ClassName,
    Texture,
    ContentFlag,
    SurfaceFlag,
    SurfaceParam,
}

/// A rule that marks brushes or faces.
#[derive(Debug)]
pub struct Tag {
    pub name: String,
    pub attribs: Option<Vec<TagAttribute>>,
    pub match_type: TagMatchType,
    pub pattern: Option<String>,
    pub flags: Option<Vec<String>>,
    pub texture: Option<String>,
}

/// The tags for brushes and for faces.
#[derive(Debug)]
pub struct Tags {
    pub brush: Vec<Tag>,
    pub brush_face: Vec<Tag>,
}

/// The values that a face flag gives to new faces.
#[derive(Debug)]
pub struct FaceAttributeDefaults {
    pub offset: Option<[Rational; 2]>,
    pub scale: Option<[Rational; 2]>,
    pub rotation: Option<Rational>,
    pub surface_value: Option<Rational>,
    pub surface_flags: Option<Vec<String>>,
    pub surface_contents: Option<Vec<String>>,
    pub color: Option<String>,
}

/// One bit of the surface or content flags of a face.
#[derive(Debug)]
pub enum FaceFlag {
    Unused { unused: bool },
    Used { name: String, description: Option<String>, defaults: Option<FaceAttributeDefaults> },
}

/// The flags that faces can carry.
#[derive(Debug)]
pub struct FaceAttributes {
    pub surface_flags: Vec<FaceFlag>,
    pub content_flags: Vec<FaceFlag>,
}

/// The formats of level files.
#[derive(Clone, Copy, PartialEq, Eq, Debug, Structural)]
pub enum MapFormat {
    Standard,
    Valve,
    Quake2,
    Quake2Valve,
    Quake3,
    Quake3Legacy,
    Quake3Valve,
    Hexen2,
    Daikatana,
}

/// A level format that a game takes, and the level that new files start from.
#[derive(Debug)]
pub struct MapFormatConfig {
    pub format: MapFormat,
    pub initial_map: Option<String>,
}

/// A tool that compiles levels.
#[derive(Debug)]
pub struct CompilationTool {
    pub name: String,
}

/// The configuration of a game.
#[derive(Debug)]
pub struct GameConfig {
    pub version: u32,
    pub name: String,
    pub file_formats: Vec<MapFormatConfig>,
    pub filesystem: FilesystemSettings,
    pub textures: TextureSettings,
    pub entities: EntitySettings,
    pub tags: Tags,
    pub face_attribs: FaceAttributes,
    pub soft_map_bounds: Option<String>,
    pub compilation_tools: Option<Vec<CompilationTool>>,
}

impl Default for GameConfig {
    /// A game of version 4 that takes levels in the Valve format, with the
    /// default file system and textures, models in the Obj format, and no
    /// entity definitions, tags or face flags.
    fn default() -> (config: Self)
        ensures
            config.version == 4,
            config.name@ == "A Quake Map"@,
            config.file_formats@.len() == 1,
            config.file_formats@[0].format == MapFormat::Valve,
            config.file_formats@[0].initial_map matches Some(level) && level@
                == "initial_valve.map"@,
            config.filesystem.is_default(),
            config.textures.is_default(),
            config.entities.definitions@.len() == 0,
            config.entities.default_color@ == "0.6 0.6 0.6 1.0"@,
            config.entities.model_formats@ == seq![ModelFormat::Obj],
            config.tags.brush@.len() == 0,
            config.tags.brush_face@.len() == 0,
            config.face_attribs.surface_flags@.len() == 0,
            config.face_attribs.content_flags@.len() == 0,
            config.soft_map_bounds is None,
            config.compilation_tools is None,
    {
        let mut file_formats: Vec<MapFormatConfig> = Vec::new();
        file_formats.push(
            MapFormatConfig {
                format: MapFormat::Valve,
                initial_map: Some(String::from_str("initial_valve.map")),
            },
        );
        let mut model_formats: Vec<ModelFormat> = Vec::new();
        model_formats.push(ModelFormat::Obj);
        assert(model_formats@ =~= seq![ModelFormat::Obj]);
        GameConfig {
            version: 4,
            name: String::from_str("A Quake Map"),
            file_formats,
            filesystem: FilesystemSettings::default(),
            textures: TextureSettings::default(),
            entities: EntitySettings {
                definitions: Vec::new(),
                default_color: String::from_str("0.6 0.6 0.6 1.0"),
                model_formats,
            },
            tags: Tags { brush: Vec::new(), brush_face: Vec::new() },
            face_attribs: FaceAttributes { surface_flags: Vec::new(), content_flags: Vec::new() },
            soft_map_bounds: None,
            compilation_tools: None,
        }
    }
}

} // verus!
