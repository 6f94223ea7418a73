//! Virtual file system paths: borrowed and owned paths, their absolute
//! forms, and iteration over the file names in a path.
pub mod absolute;
pub mod absolute_owned;
pub mod filenames;
pub mod path;



pub use absolute::AbsolutePath;
pub use absolute_owned::AbsoluteOwnedPath;
pub use filenames::Filenames;
pub use path::{OwnedPath, Path, PathNotAbsoluteError};
