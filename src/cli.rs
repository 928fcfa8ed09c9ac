//! Values the command line hands to the library.
use vstd::prelude::*;
use crate::command::CommandEnum;

verus! {

/// Client-to-client encryption algorithm.
#[derive(Clone, Copy, Debug, PartialEq, Eq, Structural)]
pub enum Cipher {
    AesGcm,
    AesCbc,
    AesEcb,
    Sm4Cbc,
}

/// Subcommands addressed to a running node.
#[derive(Clone, Copy, Debug, PartialEq, Eq, Structural)]
pub enum Commands {
    Peer { list: bool, info: bool, all: bool },
    Route { print: bool },
    Service { stop: bool },
}

pub open spec fn spec_commands_of(c: Commands) -> Seq<CommandEnum> {
    match c {
        Commands::Peer { list, info, all } => (if list {
            seq![CommandEnum::List]
        } else {
            Seq::empty()
        }) + (if info {
            seq![CommandEnum::Info]
        } else {
            Seq::empty()
        }) + (if all {
            seq![CommandEnum::All]
        } else {
            Seq::empty()
        }),
        Commands::Route { .. } => seq![CommandEnum::Route],
        Commands::Service { .. } => seq![CommandEnum::Stop],
    }
}

/// The control-socket requests a subcommand stands for, in order.
pub fn commands_of(c: &Commands) -> (r: Vec<CommandEnum>)
    ensures
        r@ == spec_commands_of(*c),
{
    let mut out: Vec<CommandEnum> = Vec::new();
    match c {
        Commands::Peer { list, info, all } => {
            if *list {
                out.push(CommandEnum::List);
            }
            if *info {
                out.push(CommandEnum::Info);
            }
            if *all {
                out.push(CommandEnum::All);
            }
        },
        Commands::Route { .. } => {
            out.push(CommandEnum::Route);
        },
        Commands::Service { .. } => {
            out.push(CommandEnum::Stop);
        },
    }
    assert(out@ =~= spec_commands_of(*c));
    out
}

} // verus!
