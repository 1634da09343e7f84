//! Every data source under one type, so that the backend can hold them side by side.
use vstd::prelude::*;
use crate::fstree::FsEntry;
use crate::modules::battery::Battery;
use crate::modules::brightness::Brightness;
use crate::modules::cpu::Cpu;
use crate::modules::memory::Memory;
use crate::modules::module::{Module, WriteAction};
use crate::modules::trash::Trash;

verus! {

/// One of the data sources.
pub enum AnyModule {
    Battery(Battery),
    Brightness(Brightness),
    Cpu(Cpu),
    Memory(Memory),
    Trash(Trash),
}

impl Module for AnyModule {
    open spec fn spec_name(&self) -> Seq<char> {
        match self {
            AnyModule::Battery(m) => m.spec_name(),
            AnyModule::Brightness(m) => m.spec_name(),
            AnyModule::Cpu(m) => m.spec_name(),
            AnyModule::Memory(m) => m.spec_name(),
            AnyModule::Trash(m) => m.spec_name(),
        }
    }

    open spec fn spec_owns(&self, inode: u64) -> bool {
        match self {
            AnyModule::Battery(m) => m.spec_owns(inode),
            AnyModule::Brightness(m) => m.spec_owns(inode),
            AnyModule::Cpu(m) => m.spec_owns(inode),
            AnyModule::Memory(m) => m.spec_owns(inode),
            AnyModule::Trash(m) => m.spec_owns(inode),
        }
    }

    open spec fn spec_value(&self, inode: u64) -> Seq<char> {
        match self {
            AnyModule::Battery(m) => m.spec_value(inode),
            AnyModule::Brightness(m) => m.spec_value(inode),
            AnyModule::Cpu(m) => m.spec_value(inode),
            AnyModule::Memory(m) => m.spec_value(inode),
            AnyModule::Trash(m) => m.spec_value(inode),
        }
    }

    open spec fn spec_json(&self) -> Seq<char> {
        match self {
            AnyModule::Battery(m) => m.spec_json(),
            AnyModule::Brightness(m) => m.spec_json(),
            AnyModule::Cpu(m) => m.spec_json(),
            AnyModule::Memory(m) => m.spec_json(),
            AnyModule::Trash(m) => m.spec_json(),
        }
    }

    open spec fn spec_shell(&self) -> Seq<char> {
        match self {
            AnyModule::Battery(m) => m.spec_shell(),
            AnyModule::Brightness(m) => m.spec_shell(),
            AnyModule::Cpu(m) => m.spec_shell(),
            AnyModule::Memory(m) => m.spec_shell(),
            AnyModule::Trash(m) => m.spec_shell(),
        }
    }

    open spec fn spec_write(&self, inode: u64, data: Seq<u8>) -> WriteAction {
        match self {
            AnyModule::Battery(m) => m.spec_write(inode, data),
            AnyModule::Brightness(m) => m.spec_write(inode, data),
            AnyModule::Cpu(m) => m.spec_write(inode, data),
            AnyModule::Memory(m) => m.spec_write(inode, data),
            AnyModule::Trash(m) => m.spec_write(inode, data),
        }
    }

    open spec fn spec_entries(&self, s: Seq<FsEntry>) -> bool {
        match self {
            AnyModule::Battery(m) => m.spec_entries(s),
            AnyModule::Brightness(m) => m.spec_entries(s),
            AnyModule::Cpu(m) => m.spec_entries(s),
            AnyModule::Memory(m) => m.spec_entries(s),
            AnyModule::Trash(m) => m.spec_entries(s),
        }
    }

    fn name(&self) -> (r: &str) {
        match self {
            AnyModule::Battery(m) => m.name(),
            AnyModule::Brightness(m) => m.name(),
            AnyModule::Cpu(m) => m.name(),
            AnyModule::Memory(m) => m.name(),
            AnyModule::Trash(m) => m.name(),
        }
    }

    fn owns(&self, inode: u64) -> (r: bool) {
        match self {
            AnyModule::Battery(m) => m.owns(inode),
            AnyModule::Brightness(m) => m.owns(inode),
            AnyModule::Cpu(m) => m.owns(inode),
            AnyModule::Memory(m) => m.owns(inode),
            AnyModule::Trash(m) => m.owns(inode),
        }
    }

    fn fs_entries(&self) -> (r: Vec<FsEntry>) {
        match self {
            AnyModule::Battery(m) => m.fs_entries(),
            AnyModule::Brightness(m) => m.fs_entries(),
            AnyModule::Cpu(m) => m.fs_entries(),
            AnyModule::Memory(m) => m.fs_entries(),
            AnyModule::Trash(m) => m.fs_entries(),
        }
    }

    fn value(&self, inode: u64) -> (r: String) {
        match self {
            AnyModule::Battery(m) => m.value(inode),
            AnyModule::Brightness(m) => m.value(inode),
            AnyModule::Cpu(m) => m.value(inode),
            AnyModule::Memory(m) => m.value(inode),
            AnyModule::Trash(m) => m.value(inode),
        }
    }

    fn set_value(&self, inode: u64, data: &[u8]) -> (r: WriteAction) {
        match self {
            AnyModule::Battery(m) => m.set_value(inode, data),
            AnyModule::Brightness(m) => m.set_value(inode, data),
            AnyModule::Cpu(m) => m.set_value(inode, data),
            AnyModule::Memory(m) => m.set_value(inode, data),
            AnyModule::Trash(m) => m.set_value(inode, data),
        }
    }

    fn json(&self) -> (r: String) {
        match self {
            AnyModule::Battery(m) => m.json(),
            AnyModule::Brightness(m) => m.json(),
            AnyModule::Cpu(m) => m.json(),
            AnyModule::Memory(m) => m.json(),
            AnyModule::Trash(m) => m.json(),
        }
    }

    fn shell(&self) -> (r: String) {
        match self {
            AnyModule::Battery(m) => m.shell(),
            AnyModule::Brightness(m) => m.shell(),
            AnyModule::Cpu(m) => m.shell(),
            AnyModule::Memory(m) => m.shell(),
            AnyModule::Trash(m) => m.shell(),
        }
    }
}

} // verus!
