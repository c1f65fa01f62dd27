//! A bridge between statically-typed values and a dynamically-typed host
//! runtime's object graph: an encoder that turns static values into dynamic
//! objects, a decoder that turns dynamic objects back into static values, and
//! the shared error vocabulary of the two engines.  The dynamic object graph
//! is modelled by [`value::PyValue`]; the thin layer that converts between
//! that model and the host runtime's real objects lives outside this crate.
pub mod de;
pub mod error;
pub mod laws;
pub mod long;
pub mod ser;
pub mod shape;
pub mod visitor;
pub mod value;

pub use crate::de::Depythonizer;
pub use crate::error::{ErrorImpl, PyErr, PythonizeError};
pub use crate::long::PyLong;
pub use crate::shape::{depythonize_as, TypeShape, VariantShape};
pub use crate::visitor::{transcode, PyObjectVisitor};
pub use crate::de::{depythonize, depythonize_bound};
pub use crate::ser::{
    pythonize, pythonize_custom, PythonCollectionSerializer, PythonMapSerializer, PythonStructDictSerializer,
    PythonStructVariantSerializer, PythonTupleVariantSerializer, PythonizeDefault,
    PythonizeListType, PythonizeMappingType, PythonizeNamedMappingType, PythonizeTypes,
    Pythonizer,
};
pub use crate::value::{PyValue, RustValue};
