pub mod pack_tool;
pub mod un_pack_tool;
