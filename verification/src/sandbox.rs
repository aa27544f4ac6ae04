//! A sandbox for benchmarks of WebAssembly code.
//!
//! It runs the code by itself, without the functions that a program can otherwise import.
use sp_sandbox::{EnvironmentDefinitionBuilder, Instance, Memory};
use vstd::prelude::*;

verus! {

/// `sp_sandbox::Memory`, the memory of a sandboxed module.
#[verifier::external_type_specification]
#[verifier::external_body]
pub struct ExMemory(sp_sandbox::Memory);

/// `sp_sandbox::EnvironmentDefinitionBuilder`, what a sandboxed module can import.
#[verifier::external_type_specification]
#[verifier::external_body]
#[verifier::reject_recursive_types(T)]
pub struct ExEnvironmentDefinitionBuilder<T>(sp_sandbox::EnvironmentDefinitionBuilder<T>);

/// `sp_sandbox::Instance`, a sandboxed module.
#[verifier::external_type_specification]
#[verifier::external_body]
#[verifier::reject_recursive_types(T)]
pub struct ExInstance<T>(sp_sandbox::Instance<T>);

/// Why a sandbox could not do what it was asked for.
#[derive(Clone, Copy, PartialEq, Eq, Debug, Structural)]
pub enum SandboxError {
    /// The module, or the memory that it imports, is not valid.
    Module,
    /// A memory was accessed beyond its end.
    OutOfBounds,
    /// The code has no such function, or the function trapped.
    Execution,
}

/// The number of pages that a memory started with, and the number that it may grow to.
pub uninterp spec fn memory_limits(memory: Memory) -> (u32, Option<u32>);

/// The memories that an environment offers under the names of a module and of a field, each by its
/// limits.
pub uninterp spec fn environment_memories(environment: EnvironmentDefinitionBuilder<()>) -> Map<
    (Seq<u8>, Seq<u8>),
    (u32, Option<u32>),
>;

/// The code that an instance was made of.
pub uninterp spec fn instance_code(instance: Instance<()>) -> Seq<u8>;

/// The memories that were offered to an instance when it was made.
pub uninterp spec fn instance_memories(instance: Instance<()>) -> Map<
    (Seq<u8>, Seq<u8>),
    (u32, Option<u32>),
>;

/// The names of the functions that were invoked on an instance, in order, each with whether it ran
/// to its end.
pub uninterp spec fn instance_calls(instance: Instance<()>) -> Seq<(Seq<char>, bool)>;

/// The largest number of pages that a memory can have.
pub const MAX_PAGES: u32 = 65536;

/// Whether a memory can have these limits.
pub open spec fn limits_valid(initial: u32, maximum: Option<u32>) -> bool {
    match maximum {
        Some(maximum) => initial <= maximum <= MAX_PAGES,
        None => initial <= MAX_PAGES,
    }
}

/// Calls `sp_sandbox::Memory::new`. A memory that comes back has the given limits, and these are
/// limits that a memory can have. An error is always the one for an invalid module. That a memory
/// comes back at all is not claimed: the machine may not have it.
#[verifier::external_body]
fn new_memory(initial: u32, maximum: Option<u32>) -> (result: Result<Memory, SandboxError>)
    ensures
        result matches Ok(memory) ==> memory_limits(memory) == (initial, maximum) && limits_valid(
            initial,
            maximum,
        ),
        result matches Err(error) ==> error is Module,
{
    Memory::new(initial, maximum).map_err(
        |error| match error {
            sp_sandbox::Error::Module => SandboxError::Module,
            sp_sandbox::Error::OutOfBounds => SandboxError::OutOfBounds,
            sp_sandbox::Error::Execution => SandboxError::Execution,
        },
    )
}

/// Calls `sp_sandbox::EnvironmentDefinitionBuilder::new`. The environment offers nothing.
#[verifier::external_body]
fn new_environment() -> (environment: EnvironmentDefinitionBuilder<()>)
    ensures
        environment_memories(environment).is_empty(),
{
    EnvironmentDefinitionBuilder::new()
}

/// Calls `sp_sandbox::EnvironmentDefinitionBuilder::add_memory` with another handle of `memory`.
/// The environment offers the memory under the given names, in place of what it offered under
/// them before.
#[verifier::external_body]
fn add_memory(
    environment: &mut EnvironmentDefinitionBuilder<()>,
    module: &Vec<u8>,
    field: &Vec<u8>,
    memory: &Memory,
)
    ensures
        environment_memories(*final(environment)) == environment_memories(*old(environment)).insert(
            (module@, field@),
            memory_limits(*memory),
        ),
{
    environment.add_memory(module.as_slice(), field.as_slice(), memory.clone());
}

/// Calls `sp_sandbox::Instance::new`. An instance that comes back was made of the given code and
/// environment, and nothing was invoked on it. An error is never the one for an access beyond the
/// end of a memory. Whether an instance comes back is up to the code, whose start function is run,
/// and to the machine. The call lasts as long as that function does.
#[verifier::external_body]
fn new_instance(code: &Vec<u8>, environment: &EnvironmentDefinitionBuilder<()>) -> (result: Result<
    Instance<()>,
    SandboxError,
>)
    ensures
        result matches Ok(instance) ==> {
            &&& instance_code(instance) == code@
            &&& instance_memories(instance) == environment_memories(*environment)
            &&& instance_calls(instance).len() == 0
        },
        result matches Err(error) ==> !(error is OutOfBounds),
{
    Instance::new(code.as_slice(), environment, &mut ()).map_err(
        |error| match error {
            sp_sandbox::Error::Module => SandboxError::Module,
            sp_sandbox::Error::OutOfBounds => SandboxError::OutOfBounds,
            sp_sandbox::Error::Execution => SandboxError::Execution,
        },
    )
}

/// Calls `sp_sandbox::Instance::invoke` with the given name and no arguments. The instance is of
/// the same code and memories as before, and the call is the last that was made on it, with whether
/// it succeeded. An error is always the one for a failed execution. Whether the execution fails is
/// up to the code and to the machine. The call lasts as long as the function does.
#[verifier::external_body]
fn invoke_export(instance: &mut Instance<()>, name: &str) -> (result: Result<(), SandboxError>)
    ensures
        instance_code(*final(instance)) == instance_code(*old(instance)),
        instance_memories(*final(instance)) == instance_memories(*old(instance)),
        instance_calls(*final(instance)) == instance_calls(*old(instance)).push(
            (name@, result is Ok),
        ),
        result matches Err(error) ==> error is Execution,
{
    match instance.invoke(name, &[], &mut ()) {
        Ok(_) => Ok(()),
        Err(sp_sandbox::Error::Module) => Err(SandboxError::Module),
        Err(sp_sandbox::Error::OutOfBounds) => Err(SandboxError::OutOfBounds),
        Err(sp_sandbox::Error::Execution) => Err(SandboxError::Execution),
    }
}

/// A memory that a module declares as imported.
#[derive(Debug)]
pub struct ImportedMemory {
    /// Name of the module that the memory is imported from.
    pub module: Vec<u8>,
    /// Name of the memory in that module.
    pub field: Vec<u8>,
    /// How many pages the memory starts with.
    pub min_pages: u32,
    /// How many pages the memory may grow to.
    pub max_pages: u32,
}

/// WebAssembly code, together with the memory that it declares as imported.
#[derive(Debug)]
pub struct WasmModule {
    /// The code.
    pub code: Vec<u8>,
    /// The memory that it imports, if it imports one.
    pub memory: Option<ImportedMemory>,
}

impl WasmModule {
    /// The limits of the memory that the module imports.
    pub open spec fn limits(self) -> Option<(u32, Option<u32>)> {
        match self.memory {
            Some(memory) => Some((memory.min_pages, Some(memory.max_pages))),
            None => None,
        }
    }

    /// `memories`, and in addition the memory that the module imports.
    pub open spec fn supplied(
        self,
        memories: Map<(Seq<u8>, Seq<u8>), (u32, Option<u32>)>,
    ) -> Map<(Seq<u8>, Seq<u8>), (u32, Option<u32>)> {
        match self.memory {
            Some(memory) => memories.insert(
                (memory.module@, memory.field@),
                (memory.min_pages, Some(memory.max_pages)),
            ),
            None => memories,
        }
    }

    /// Whether the memory that the module imports, if it imports one, can exist.
    pub open spec fn memory_valid(self) -> bool {
        self.limits() matches Some((initial, maximum)) ==> limits_valid(initial, maximum)
    }

    /// Whether the memory that the module imports was asked for, and `outcome` came of it.
    pub closed spec fn memory_requested(self, outcome: Result<Memory, SandboxError>) -> bool {
        self.limits() matches Some((initial, maximum)) && call_ensures(
            new_memory,
            (initial, maximum),
            outcome,
        )
    }

    /// Whether `target` was made to offer `memory`, as the one that the module imports.
    pub closed spec fn memory_offered(
        self,
        target: &mut EnvironmentDefinitionBuilder<()>,
        memory: Memory,
    ) -> bool {
        self.memory matches Some(declared) && call_ensures(
            add_memory,
            (target, &declared.module, &declared.field, &memory),
            (),
        )
    }

    /// Whether an instance of the code was asked for in `environment`, and `outcome` came of it.
    pub closed spec fn instance_requested(
        self,
        environment: EnvironmentDefinitionBuilder<()>,
        outcome: Result<Instance<()>, SandboxError>,
    ) -> bool {
        call_ensures(new_instance, (&self.code, &environment), outcome)
    }

    /// Makes the memory that the module imports, if it imports one, and lets `environment` offer
    /// it. The memory that comes back is the one that is offered. It fails exactly where the memory
    /// is refused, and then nothing is offered.
    pub fn add_memory(&self, environment: &mut EnvironmentDefinitionBuilder<()>) -> (result: Result<
        Option<Memory>,
        SandboxError,
    >)
        ensures
            match result {
                Ok(memory) => {
                    &&& self.memory_valid()
                    &&& self.limits() == match memory {
                        Some(memory) => Some(memory_limits(memory)),
                        None => None,
                    }
                    &&& environment_memories(*final(environment)) == self.supplied(
                        environment_memories(*old(environment)),
                    )
                    &&& match memory {
                        Some(memory) => {
                            &&& self.memory_requested(Ok(memory))
                            &&& exists|target: &mut EnvironmentDefinitionBuilder<()>|
                                {
                                    &&& #[trigger] self.memory_offered(target, memory)
                                    &&& *target == *old(environment)
                                    &&& *final(target) == *final(environment)
                                }
                        },
                        None => *final(environment) == *old(environment),
                    }
                },
                Err(error) => {
                    &&& self.memory is Some
                    &&& self.memory_requested(Err(error))
                    &&& error is Module
                    &&& *final(environment) == *old(environment)
                },
            },
    {
        match &self.memory {
            Some(declared) => {
                match new_memory(declared.min_pages, Some(declared.max_pages)) {
                    Ok(memory) => {
                        add_memory(environment, &declared.module, &declared.field, &memory);
                        assert(forall|target: &mut EnvironmentDefinitionBuilder<()>| #[trigger]
                            call_ensures(
                                add_memory,
                                (target, &declared.module, &declared.field, &memory),
                                (),
                            ) ==> self.memory_offered(target, memory));
                        Ok(Some(memory))
                    },
                    Err(error) => Err(error),
                }
            },
            None => Ok(None),
        }
    }
}

/// Minimal execution environment, which offers no functions.
pub struct Sandbox {
    instance: Instance<()>,
    memory: Option<Memory>,
}

impl Sandbox {
    /// The code that runs in the sandbox.
    pub open spec fn code(self) -> Seq<u8> {
        instance_code(self.instance())
    }

    /// The memories that were offered to the code.
    pub open spec fn memories(self) -> Map<(Seq<u8>, Seq<u8>), (u32, Option<u32>)> {
        instance_memories(self.instance())
    }

    /// The instance that runs the code.
    pub closed spec fn instance(self) -> Instance<()> {
        self.instance
    }

    /// The memory that the sandbox holds for the code.
    pub closed spec fn memory(self) -> Option<Memory> {
        self.memory
    }

    /// The limits of the memory that the sandbox holds for the code.
    pub open spec fn limits(self) -> Option<(u32, Option<u32>)> {
        match self.memory() {
            Some(memory) => Some(memory_limits(memory)),
            None => None,
        }
    }

    /// The names of the functions that were invoked in the sandbox, in order, each with whether it
    /// ran to its end.
    pub open spec fn calls(self) -> Seq<(Seq<char>, bool)> {
        instance_calls(self.instance())
    }

    /// Invokes the function `call` of the code, without arguments, and reports whether it failed.
    pub fn invoke(&mut self) -> (result: Result<(), SandboxError>)
        ensures
            final(self).calls() == old(self).calls().push(("call"@, result is Ok)),
            final(self).code() == old(self).code(),
            final(self).memories() == old(self).memories(),
            final(self).memory() == old(self).memory(),
            result matches Err(error) ==> error is Execution,
    {
        invoke_export(&mut self.instance, "call")
    }

    /// Makes a sandbox for `module`, and supplies as much memory to it as the module declares as
    /// imported. There is a sandbox exactly where that memory, and then the instance, could be
    /// made. The sandbox keeps that instance, and the memory that was offered to it.
    pub fn from_module(module: &WasmModule) -> (result: Result<Sandbox, SandboxError>)
        ensures
            match result {
                Ok(sandbox) => {
                    &&& module.memory_valid()
                    &&& sandbox.code() == module.code@
                    &&& sandbox.memories() == module.supplied(Map::empty())
                    &&& sandbox.limits() == module.limits()
                    &&& sandbox.calls().len() == 0
                    &&& match sandbox.memory() {
                        Some(memory) => {
                            &&& module.memory_requested(Ok(memory))
                            &&& exists|target: &mut EnvironmentDefinitionBuilder<()>|
                                {
                                    &&& #[trigger] module.memory_offered(target, memory)
                                    &&& environment_memories(*target).is_empty()
                                    &&& module.instance_requested(
                                        *final(target),
                                        Ok(sandbox.instance()),
                                    )
                                }
                        },
                        None => exists|environment: EnvironmentDefinitionBuilder<()>|
                            {
                                &&& #[trigger] module.instance_requested(
                                    environment,
                                    Ok(sandbox.instance()),
                                )
                                &&& environment_memories(environment).is_empty()
                            },
                    }
                },
                Err(error) => {
                    ||| module.memory_requested(Err(error)) && error is Module
                    ||| !(error is OutOfBounds) && exists|
                        environment: EnvironmentDefinitionBuilder<()>,
                    |
                        {
                            &&& #[trigger] module.instance_requested(environment, Err(error))
                            &&& environment_memories(environment) == module.supplied(Map::empty())
                        }
                },
            },
            !module.memory_valid() ==> result == Err::<Sandbox, SandboxError>(SandboxError::Module),
    {
        let mut environment = new_environment();
        let memory = match module.add_memory(&mut environment) {
            Ok(memory) => memory,
            Err(error) => return Err(error),
        };
        assert(environment_memories(environment) =~= module.supplied(Map::empty()));
        let outcome = new_instance(&module.code, &environment);
        assert(module.instance_requested(environment, outcome));
        match outcome {
            Ok(instance) => Ok(Sandbox { instance, memory }),
            Err(error) => Err(error),
        }
    }
}

/// A memory can have limits exactly if it starts with no more pages than it may grow to, and that is
/// no more than there can be.
pub proof fn law_which_limits_are_valid(initial: u32, maximum: Option<u32>)
    ensures
        maximum is None ==> (limits_valid(initial, maximum) <==> initial <= 65536),
        maximum matches Some(most) ==> (limits_valid(initial, maximum) <==> initial <= most && most
            <= 65536),
{
}

/// The memory that a module imports is offered under the names, and with the limits, that the module
/// declares. What was offered under other names still is. A module that imports none has no limits,
/// and changes nothing.
pub proof fn law_declared_memory_is_offered(
    module: WasmModule,
    memories: Map<(Seq<u8>, Seq<u8>), (u32, Option<u32>)>,
)
    ensures
        match module.memory {
            Some(memory) => {
                &&& module.limits() == Some((memory.min_pages, Some(memory.max_pages)))
                &&& module.memory_valid() <==> memory.min_pages <= memory.max_pages <= 65536
                &&& module.supplied(memories)[(memory.module@, memory.field@)] == (
                    memory.min_pages,
                    Some(memory.max_pages),
                )
                &&& module.supplied(memories).dom() == memories.dom().insert(
                    (memory.module@, memory.field@),
                )
                &&& forall|at: (Seq<u8>, Seq<u8>)| #[trigger]
                    memories.contains_key(at) && at != (memory.module@, memory.field@)
                        ==> module.supplied(memories)[at] == memories[at]
            },
            None => {
                &&& module.limits() is None
                &&& module.memory_valid()
                &&& module.supplied(memories) == memories
            },
        },
{
}

/// A memory that a module asked for has the limits that the module declares. An environment that it
/// was offered to offers it under the declared names, and else what it offered before. An instance
/// that a module asked for is one of its code, with the memories of its environment, on which
/// nothing was invoked.
pub proof fn law_requests_give_what_is_declared(
    module: WasmModule,
    memory: Memory,
    environment: EnvironmentDefinitionBuilder<()>,
    instance: Instance<()>,
    error: SandboxError,
)
    ensures
        module.memory_requested(Ok(memory)) ==> {
            &&& module.memory is Some
            &&& memory_limits(memory) == (
                module.memory.unwrap().min_pages,
                Some(module.memory.unwrap().max_pages),
            )
        },
        module.memory_requested(Err(error)) ==> module.memory is Some && error is Module,
        forall|target: &mut EnvironmentDefinitionBuilder<()>| #[trigger]
            module.memory_offered(target, memory) ==> {
                &&& module.memory is Some
                &&& environment_memories(*final(target)) == environment_memories(*target).insert(
                    (module.memory.unwrap().module@, module.memory.unwrap().field@),
                    memory_limits(memory),
                )
            },
        module.instance_requested(environment, Ok(instance)) ==> {
            &&& instance_code(instance) == module.code@
            &&& instance_memories(instance) == environment_memories(environment)
            &&& instance_calls(instance).len() == 0
        },
        module.instance_requested(environment, Err(error)) ==> !(error is OutOfBounds),
{
}

/// What is said of a sandbox is said of its instance and of the memory that it holds.
pub proof fn law_sandbox_is_its_instance(sandbox: Sandbox)
    ensures
        sandbox.code() == instance_code(sandbox.instance()),
        sandbox.memories() == instance_memories(sandbox.instance()),
        sandbox.calls() == instance_calls(sandbox.instance()),
        sandbox.limits() is Some <==> sandbox.memory() is Some,
        sandbox.memory() matches Some(memory) ==> sandbox.limits() == Some(memory_limits(memory)),
{
}

/// To invoke a sandbox is to invoke the function `call` of its code, once, and to learn whether that
/// succeeded. The code, the memories that it was offered and the one that is held for it stay the
/// same.
pub proof fn law_invoked_sandbox()
    ensures
        forall|sandbox: &mut Sandbox, result: Result<(), SandboxError>| #[trigger]
            call_ensures(Sandbox::invoke, (sandbox,), result) ==> {
                let calls = instance_calls(final(sandbox).instance());
                &&& calls.len() == instance_calls(sandbox.instance()).len() + 1
                &&& calls.drop_last() == instance_calls(sandbox.instance())
                &&& calls.last().0 == "call"@
                &&& calls.last().1 <==> result is Ok
                &&& instance_code(final(sandbox).instance()) == instance_code(sandbox.instance())
                &&& instance_memories(final(sandbox).instance()) == instance_memories(
                    sandbox.instance(),
                )
                &&& final(sandbox).memory() == sandbox.memory()
            },
{
    assert forall|sandbox: &mut Sandbox, result: Result<(), SandboxError>| #[trigger]
        call_ensures(Sandbox::invoke, (sandbox,), result) implies instance_calls(
        final(sandbox).instance(),
    ).drop_last() == instance_calls(sandbox.instance()) by {
        assert(instance_calls(final(sandbox).instance()).drop_last() =~= instance_calls(
            sandbox.instance(),
        ));
    }
}

/// A sandbox that is made runs the code of its module, was offered just the memory that the module
/// declares, holds a memory exactly if the module declares one, and was not invoked. Where the
/// declared memory cannot exist, none is made.
pub proof fn law_made_sandbox(module: WasmModule, result: Result<Sandbox, SandboxError>)
    requires
        call_ensures(Sandbox::from_module, (&module,), result),
    ensures
        result matches Ok(sandbox) ==> {
            &&& instance_code(sandbox.instance()) == module.code@
            &&& instance_calls(sandbox.instance()).len() == 0
            &&& match module.memory {
                Some(declared) => {
                    let limits = (declared.min_pages, Some(declared.max_pages));
                    &&& sandbox.memory() is Some
                    &&& memory_limits(sandbox.memory().unwrap()) == limits
                    &&& instance_memories(sandbox.instance()) == map![
                        (declared.module@, declared.field@) => limits
                    ]
                },
                None => {
                    &&& sandbox.memory() is None
                    &&& instance_memories(sandbox.instance()).is_empty()
                },
            }
        },
        module.memory matches Some(declared) && !(declared.min_pages <= declared.max_pages
            <= 65536) ==> result is Err && result->Err_0 is Module,
{
}

} // verus!
