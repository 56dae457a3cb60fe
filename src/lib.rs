//! A verified model of a component object protocol: interface identities,
//! class descriptions with independent interface hierarchies, vtable layout
//! plans in which an ancestor's block leads each descendant's, runtime
//! interface queries, and shared reference counting.

pub mod class;
pub mod dispatch;
pub mod hresult;
pub mod iid;
pub mod interface;
pub mod layout;
pub mod runtime;

pub use class::{Binding, CoClass, GenError};
pub use hresult::{failed, HResult};
pub use iid::{iid_iclassfactory, iid_iunknown, Iid};
pub use interface::{ComInterface, IClassFactory, IUnknown};
pub use layout::Slot;
pub use runtime::{ClassFactory, ComError, ComPtr, Instance, Runtime};
