//! Reading GFD files (the container format of GX2 shaders) and turning the
//! vertex shaders they hold into the plain values from which shader
//! initialisers are generated.

pub mod bytes;
pub mod gfd;
pub mod init;
pub mod shaders;
pub mod encode;
pub mod layout;
