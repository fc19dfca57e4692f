pub mod descriptor;
pub mod dict;

pub use descriptor::ImageModel;
pub use descriptor::LocalStackPro;
pub use descriptor::LocalStackProBuilder;
pub use descriptor::WaitFor;
pub use dict::Dict;
