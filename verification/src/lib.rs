//! A single process's virtual address space: a sparse, sorted set of
//! mappings from page-granular virtual address ranges to backing data
//! sources, with guard pages between neighbours, permission flags on every
//! mapping, and exact-address lookup from a virtual address to the source
//! and offset that back it.

mod flags;
mod space;

pub use flags::FlagBuilder;
pub use space::AddressSpace;
pub use space::MapEntry;
pub use space::MapError;
pub use space::PAGE_SIZE;
pub use space::VADDR_MAX;
pub use space::alloc_addr;
pub use space::alloc_cursor;
pub use space::can_allocate;
pub use space::cursor_after;
pub use space::entries_separated;
pub use space::entries_wf;
pub use space::entry_in_bounds;
pub use space::has_mapping_at;
pub use space::lemma_addr_unique;
pub use space::lemma_guard_separation;
pub use space::lemma_lookup_after_insert;
pub use space::lemma_mappings_bounded;
pub use space::lemma_removed_addr_absent;
pub use space::mapping_index;
pub use space::page_round_up;
pub use space::room_at;
