//! Where the files of textures are searched.

use crate::loader::{empty_texture_name, is_empty_texture, MapError};
use vstd::prelude::*;

verus! {

/// Why the file of a texture cannot be found.
#[derive(Clone, Copy, PartialEq, Eq, Debug, Structural)]
pub enum FileTextureLoadError {
    /// The world entity lists no texture collections.
    MissingTextureCollections,
    /// The list of texture collections is empty.
    EmptyTextureCollections,
    /// The directory of the texture has no parent.
    DirectoryParseFailed,
    /// The path of the texture has no file name.
    FilenameParseFailed,
    /// No file in the directory has the name of the texture.
    FileNotFound,
    /// The file has no extension to tell its format by.
    NoExtension,
}

/// The collection in which the file of a texture is searched: the first of
/// the list.
pub fn collection_dir(texture_collections: Option<&Vec<Vec<u8>>>) -> (dir: Result<
    &Vec<u8>,
    FileTextureLoadError,
>)
    ensures
        match dir {
            Ok(d) => texture_collections matches Some(list) && list@.len() > 0 && *d == list@[0],
            Err(FileTextureLoadError::MissingTextureCollections) => texture_collections is None,
            Err(FileTextureLoadError::EmptyTextureCollections) => texture_collections matches Some(
                list,
            ) && list@.len() == 0,
            Err(_) => false,
        },
{
    match texture_collections {
        None => Err(FileTextureLoadError::MissingTextureCollections),
        Some(list) => {
            if list.len() == 0 {
                Err(FileTextureLoadError::EmptyTextureCollections)
            } else {
                Ok(&list[0])
            }
        },
    }
}

/// Which texture is asked for.
#[derive(Clone, Copy, PartialEq, Eq, Debug, Structural)]
pub enum TextureSource {
    /// The texture for faces without a texture.
    Default,
    /// The texture of the name that the face carries.
    Named,
    /// The texture that is shown in place of one that cannot be found.
    Missing,
}

/// The texture to ask for first for a face that carries `name`: the
/// default texture where the face has none, else the one of that name.
pub fn first_source(name: &Vec<u8>) -> (source: TextureSource)
    ensures
        source == if name@ == empty_texture_name() {
            TextureSource::Default
        } else {
            TextureSource::Named
        },
{
    if is_empty_texture(name) {
        TextureSource::Default
    } else {
        TextureSource::Named
    }
}

/// What to do where the texture `tried` could not be had: ask for the one
/// that stands for missing textures in place of a named one. For the other
/// two there is no replacement, and loading the level fails.
pub fn next_source(tried: TextureSource) -> (next: Result<TextureSource, MapError>)
    ensures
        next == match tried {
            TextureSource::Named => Ok::<TextureSource, MapError>(TextureSource::Missing),
            TextureSource::Default => Err::<TextureSource, MapError>(
                MapError::DefaultTextureLoadFailed,
            ),
            TextureSource::Missing => Err::<TextureSource, MapError>(
                MapError::MissingTextureLoadFailed,
            ),
        },
{
    match tried {
        TextureSource::Named => Ok(TextureSource::Missing),
        TextureSource::Default => Err(MapError::DefaultTextureLoadFailed),
        TextureSource::Missing => Err(MapError::MissingTextureLoadFailed),
    }
}

} // verus!
