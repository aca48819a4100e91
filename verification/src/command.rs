use vstd::prelude::*;

verus! {

/// A request envelope as the command layer addresses it.
#[derive(Debug, Clone)]
pub struct RequestBody {
    pub id: i32,
    pub name: String,
}

/// One command from the external command layer: which function to call and
/// where its result and error callbacks go.
#[derive(Debug, Clone)]
pub enum Cmd {
    Function { call: AppFunction, callback: String, error: String },
}

/// The functions the engine facade exposes to the command layer.
#[derive(Debug, Clone)]
pub enum AppFunction {
    RequestConfig,
    UpdateConfig { config: String },
    PortOptions,
    SelectPort { option: usize },
}

/// Messages of the internal control channel.
#[derive(Debug, Clone, Copy, PartialEq, Eq, Structural)]
pub enum ChannelMessage {
    UpdateBindings,
}

/// A command-layer error, carried as a plain message.
#[derive(Debug, Clone)]
pub struct CommandError {
    pub message: String,
}

impl CommandError {
    pub fn new(message: String) -> (r: CommandError)
        ensures
            r.message == message,
    {
        CommandError { message }
    }
}

} // verus!
