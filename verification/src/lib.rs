pub mod codec;
pub mod item;
pub mod service;
pub mod store;

pub use service::Inventory;

pub use item::Error;
pub use item::InventoryItem;
pub use item::InventoryPayload;
pub use item::ItemModel;
pub use item::PayloadField;
pub use item::PayloadModel;
pub use item::StorageFault;
