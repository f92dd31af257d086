//! The calls into Cranelift. Nothing in this file is proved: each item says
//! what the library takes for granted of one function or type of Cranelift.

use vstd::prelude::*;

verus! {

/// Cranelift's `settings::Builder`: a set of compiler settings under
/// construction.
#[verifier::external_type_specification]
#[verifier::external_body]
pub struct ExSettingsBuilder(cranelift::codegen::settings::Builder);

/// Cranelift's `settings::Flags`: a finished set of compiler settings.
#[verifier::external_type_specification]
#[verifier::external_body]
pub struct ExFlags(cranelift::codegen::settings::Flags);

/// Cranelift's `settings::SetError`: why a setting was refused.
#[verifier::external_type_specification]
#[verifier::external_body]
pub struct ExSetError(cranelift::codegen::settings::SetError);

/// Cranelift's `ObjectBuilder`: the description of an object file to come.
#[verifier::external_type_specification]
#[verifier::external_body]
pub struct ExObjectBuilder(cranelift::object::ObjectBuilder);

/// Cranelift's `ObjectModule`: an object file under construction.
#[verifier::external_type_specification]
#[verifier::external_body]
pub struct ExObjectModule(cranelift::object::ObjectModule);

/// Cranelift's `ObjectProduct`: a finished object file, not yet written out.
#[verifier::external_type_specification]
#[verifier::external_body]
pub struct ExObjectProduct(cranelift::object::ObjectProduct);

/// Cranelift's `ModuleError`: why a module refused a declaration or a
/// definition.
#[verifier::external_type_specification]
#[verifier::external_body]
pub struct ExModuleError(cranelift::module::ModuleError);

/// The error of the `object` crate's writer.
#[verifier::external_type_specification]
#[verifier::external_body]
pub struct ExWriteError(cranelift::object::object::write::Error);

/// Cranelift's `Context`: one function and what is needed to compile it.
#[verifier::external_type_specification]
#[verifier::external_body]
pub struct ExContext(cranelift::codegen::Context);

/// Cranelift's `FunctionBuilderContext`: the working storage of a
/// `FunctionBuilder`.
#[verifier::external_type_specification]
#[verifier::external_body]
pub struct ExFunctionBuilderContext(cranelift::frontend::FunctionBuilderContext);

/// Cranelift's `FunctionBuilder`: the body of one function under
/// construction.
#[verifier::external_type_specification]
#[verifier::external_body]
pub struct ExFunctionBuilder<'a>(cranelift::frontend::FunctionBuilder<'a>);

/// Cranelift's `isa::Builder` for the host. Its type holds a trait object
/// of Cranelift, which cannot be declared, so the value is kept out of
/// sight in this struct.
#[verifier::external_body]
pub struct HostBuilder {
    inner: cranelift::codegen::isa::Builder,
}

/// Cranelift's `OwnedTargetIsa`: the instruction set to compile for. It is
/// a trait object of Cranelift, which cannot be declared, so the value is
/// kept out of sight in this struct.
#[verifier::external_body]
pub struct InstructionSet {
    inner: cranelift::codegen::isa::OwnedTargetIsa,
}

/// How far the one block of a function has come. The library builds
/// straight-line code: it creates one block, makes it current, seals it,
/// fills it with instructions and ends it with a return.
pub ghost enum BuilderStage {
    /// No block exists.
    Start,
    /// The block exists and is not current.
    Created { block: u32 },
    /// The block is current, empty and not sealed.
    Positioned { block: u32 },
    /// The block is current and sealed, and has no terminator.
    Ready,
    /// The block ends with a return.
    Returned,
}

/// One instruction of Cranelift, as the wrappers of this file append it to
/// the current block. Values and slots go by their numbers; a width is in
/// bits, an offset in bytes from the start of the slot.
pub ghost enum Emitted {
    /// `iconst`: `result` is the integer `immediate`, `bits` wide.
    Constant { result: u32, bits: nat, immediate: i64 },
    /// `stack_load`: `result` is the integer, `bits` wide, that `slot`
    /// holds at `offset`.
    Load { result: u32, bits: nat, slot: u32, offset: i32 },
    /// `stack_store`: `value` goes to `slot` at `offset`.
    Store { value: u32, slot: u32, offset: i32 },
    /// `iadd`: `result` is `left + right`, wrapping.
    Add { result: u32, left: u32, right: u32 },
    /// `isub`: `result` is `left - right`, wrapping.
    Subtract { result: u32, left: u32, right: u32 },
    /// `imul`: `result` is `left * right`, wrapping.
    Multiply { result: u32, left: u32, right: u32 },
    /// `sdiv`: `result` is `left / right`, both signed, rounded towards
    /// zero.
    SignedDivide { result: u32, left: u32, right: u32 },
    /// `return`: the function returns `value`.
    Return { value: u32 },
}

/// A stack slot: its size in bytes, and the binary logarithm of its
/// alignment.
pub ghost struct SlotShape {
    pub bytes: u32,
    pub align_shift: u8,
}

/// A function as a module knows it by its declaration: its name, whether
/// its linkage is `Export`, and the widths in bits of the integers that it
/// returns. It takes no parameter.
pub ghost struct Declaration {
    pub name: Seq<char>,
    pub exported: bool,
    pub results: Seq<nat>,
}

/// How far the wrappers of this file have brought the block of `builder`.
pub uninterp spec fn stage_of(builder: cranelift::frontend::FunctionBuilder<'_>) -> BuilderStage;

/// The instructions that the wrappers of this file have appended through
/// `builder`, in order.
pub uninterp spec fn emitted(builder: cranelift::frontend::FunctionBuilder<'_>) -> Seq<Emitted>;

/// The numbers of the 64-bit integer values that the wrappers of this file
/// have defined through `builder`.
pub uninterp spec fn values_of(builder: cranelift::frontend::FunctionBuilder<'_>) -> Set<u32>;

/// The stack slots that the wrappers of this file have created through
/// `builder`, by their numbers.
pub uninterp spec fn slots_of(builder: cranelift::frontend::FunctionBuilder<'_>) -> Map<
    u32,
    SlotShape,
>;

/// Whether `builder` holds the settings that all targets share, not those
/// of one instruction set.
pub uninterp spec fn is_shared(builder: cranelift::codegen::settings::Builder) -> bool;

/// The settings that the wrappers of this file have set in `builder`, by
/// name; the others are at their defaults.
pub uninterp spec fn settings_of(builder: cranelift::codegen::settings::Builder) -> Map<
    Seq<char>,
    Seq<char>,
>;

/// The settings that were set in the builder that `flags` was made of, by
/// name; the others are at their defaults.
pub uninterp spec fn settings_in(flags: cranelift::codegen::settings::Flags) -> Map<
    Seq<char>,
    Seq<char>,
>;

/// Whether no `FunctionBuilder` has used `context` yet.
pub uninterp spec fn is_unused(context: cranelift::frontend::FunctionBuilderContext) -> bool;

/// Whether the function of `context` has no block, no instruction and no
/// stack slot.
pub uninterp spec fn is_blank(context: cranelift::codegen::Context) -> bool;

/// Whether the function of `context` has an entry block.
pub uninterp spec fn has_entry(context: cranelift::codegen::Context) -> bool;

/// The widths in bits of the integers that the function of `context`
/// returns, as its signature lists them. The wrappers of this file give it
/// no parameter.
pub uninterp spec fn results_of(context: cranelift::codegen::Context) -> Seq<nat>;

/// The functions declared in `module`, by their numbers.
pub uninterp spec fn declared_in(module: cranelift::object::ObjectModule) -> Map<u32, Declaration>;

/// The numbers of the functions defined in `module`.
pub uninterp spec fn defined_in(module: cranelift::object::ObjectModule) -> Set<u32>;

/// No setting.
pub open spec fn no_settings() -> Map<Seq<char>, Seq<char>> {
    Map::empty()
}

/// No stack slot.
pub open spec fn no_slots() -> Map<u32, SlotShape> {
    Map::empty()
}

/// No declaration.
pub open spec fn no_declarations() -> Map<u32, Declaration> {
    Map::empty()
}

/// Whether `text` holds the character of code 0.
pub open spec fn holds_nul(text: Seq<char>) -> bool {
    exists|i: int| 0 <= i < text.len() && text[i] == '\0'
}

/// `cranelift_codegen::settings::builder`: the shared settings, each at its
/// default.
#[verifier::external_body]
pub(crate) fn flag_builder() -> (builder: cranelift::codegen::settings::Builder)
    ensures
        is_shared(builder),
        settings_of(builder) == no_settings(),
{
    cranelift::codegen::settings::builder()
}

/// `Configurable::set` on a `settings::Builder`: sets one setting by name,
/// or refuses the name or the value and leaves the builder as it was; the
/// builder stays of its kind. Only the setting `is_pic` is admitted: the
/// others keep their defaults, so that Cranelift goes on verifying what it
/// compiles.
#[verifier::external_body]
pub(crate) fn set_flag(
    builder: &mut cranelift::codegen::settings::Builder,
    name: &str,
    value: &str,
) -> (result: Result<(), cranelift::codegen::settings::SetError>)
    requires
        name@ == "is_pic"@,
    ensures
        is_shared(*final(builder)) == is_shared(*old(builder)),
        settings_of(*final(builder)) == match result {
            Ok(_) => settings_of(*old(builder)).insert(name@, value@),
            Err(_) => settings_of(*old(builder)),
        },
{
    cranelift::codegen::settings::Configurable::set(builder, name, value)
}

/// `settings::Flags::new`: the finished settings, which are those of the
/// builder. The builder must hold the shared settings.
#[verifier::external_body]
pub(crate) fn finish_flags(builder: cranelift::codegen::settings::Builder) -> (flags:
    cranelift::codegen::settings::Flags)
    requires
        is_shared(builder),
    ensures
        settings_in(flags) == settings_of(builder),
{
    cranelift::codegen::settings::Flags::new(builder)
}

/// `cranelift_native::builder`: a builder for the instruction set of the
/// machine that this code runs on, or the reason why that machine is not
/// supported. The result depends on the machine; nothing is claimed of it.
#[verifier::external_body]
pub(crate) fn host_builder() -> Result<HostBuilder, &'static str> {
    cranelift::native::builder().map(|inner| HostBuilder { inner })
}

/// `isa::Builder::finish`: the instruction set with the given settings, or
/// the text of Cranelift's error. The error is handed out as text because
/// its type bears the name of a type of this library. Nothing is claimed of
/// the result.
#[verifier::external_body]
pub(crate) fn finish_instruction_set(
    builder: HostBuilder,
    flags: cranelift::codegen::settings::Flags,
) -> Result<InstructionSet, String> {
    match builder.inner.finish(flags) {
        Ok(inner) => Ok(InstructionSet { inner }),
        Err(error) => Err(error.to_string()),
    }
}

/// `ObjectBuilder::new`, with Cranelift's default names for library calls:
/// the description of an object file of the given name for the given
/// instruction set, or an error where the object format or the architecture
/// is not supported. The name becomes a symbol of the object file as it
/// stands, and the writer of the file panics on a symbol that holds the
/// character of code 0: such a name is not admitted. Nothing is claimed of
/// the result.
#[verifier::external_body]
pub(crate) fn object_builder(isa: InstructionSet, name: &str) -> Result<
    cranelift::object::ObjectBuilder,
    cranelift::module::ModuleError,
>
    requires
        !holds_nul(name@),
{
    cranelift::object::ObjectBuilder::new(
        isa.inner,
        name,
        cranelift::module::default_libcall_names(),
    )
}

/// `ObjectModule::new`: an object file in which no function is declared or
/// defined.
#[verifier::external_body]
pub(crate) fn object_module(builder: cranelift::object::ObjectBuilder) -> (module:
    cranelift::object::ObjectModule)
    ensures
        declared_in(module) == no_declarations(),
        defined_in(module) == Set::<u32>::empty(),
{
    cranelift::object::ObjectModule::new(builder)
}

/// `Module::make_context`: a context with an empty function whose calling
/// convention is that of the module's target. The function has no block,
/// so no entry block, and returns nothing.
#[verifier::external_body]
pub(crate) fn function_context(module: &cranelift::object::ObjectModule) -> (context:
    cranelift::codegen::Context)
    ensures
        is_blank(context),
        !has_entry(context),
        results_of(context) == Seq::<nat>::empty(),
{
    cranelift::module::Module::make_context(module)
}

/// `AbiParam::new` for the type `I64`, whose result is appended to the
/// return values of the signature of the function in `context`: the
/// function returns one more integer, 64 bits wide. Its body stays as it
/// was.
#[verifier::external_body]
pub(crate) fn add_integer_result(context: &mut cranelift::codegen::Context)
    ensures
        results_of(*final(context)) == results_of(*old(context)).push(64),
        is_blank(*final(context)) == is_blank(*old(context)),
        has_entry(*final(context)) == has_entry(*old(context)),
{
    context.func.signature.returns.push(
        cranelift::codegen::ir::AbiParam::new(cranelift::codegen::ir::types::I64),
    );
}

/// `Layout::entry_block` on the function of `context`: whether the function
/// has an entry block.
#[verifier::external_body]
pub(crate) fn has_entry_block(context: &cranelift::codegen::Context) -> (has: bool)
    ensures
        has == has_entry(*context),
{
    context.func.layout.entry_block().is_some()
}

/// `FunctionBuilderContext::new`: working storage that no builder has used.
#[verifier::external_body]
pub(crate) fn builder_context() -> (context: cranelift::frontend::FunctionBuilderContext)
    ensures
        is_unused(context),
{
    cranelift::frontend::FunctionBuilderContext::new()
}

/// `FunctionBuilder::new` on the function of `context`: a builder that has
/// no block, and through which no instruction, no value and no slot has
/// been made. The function must be blank, so that the builder holds all
/// that the function has, and the working storage unused.
#[verifier::external_body]
pub(crate) fn function_builder<'a>(
    context: &'a mut cranelift::codegen::Context,
    working: &'a mut cranelift::frontend::FunctionBuilderContext,
) -> (builder: cranelift::frontend::FunctionBuilder<'a>)
    requires
        is_blank(*old(context)),
        is_unused(*old(working)),
    ensures
        stage_of(builder) == BuilderStage::Start,
        emitted(builder) == Seq::<Emitted>::empty(),
        values_of(builder) == Set::<u32>::empty(),
        slots_of(builder) == no_slots(),
{
    cranelift::frontend::FunctionBuilder::new(&mut context.func, working)
}

/// `FunctionBuilder::create_block`: a new block, by its number.
/// Instructions, values and slots stay as they are.
#[verifier::external_body]
pub(crate) fn create_block(builder: &mut cranelift::frontend::FunctionBuilder<'_>) -> (block: u32)
    requires
        stage_of(*old(builder)) == BuilderStage::Start,
    ensures
        stage_of(*final(builder)) == (BuilderStage::Created { block }),
        emitted(*final(builder)) == emitted(*old(builder)),
        values_of(*final(builder)) == values_of(*old(builder)),
        slots_of(*final(builder)) == slots_of(*old(builder)),
{
    builder.create_block().as_bits()
}

/// `FunctionBuilder::switch_to_block`: instructions go to `block` from now
/// on. The block must be the one just created, so that no other block is
/// current and this one has no terminator.
#[verifier::external_body]
pub(crate) fn switch_to_block(builder: &mut cranelift::frontend::FunctionBuilder<'_>, block: u32)
    requires
        stage_of(*old(builder)) == (BuilderStage::Created { block }),
    ensures
        stage_of(*final(builder)) == (BuilderStage::Positioned { block }),
        emitted(*final(builder)) == emitted(*old(builder)),
        values_of(*final(builder)) == values_of(*old(builder)),
        slots_of(*final(builder)) == slots_of(*old(builder)),
{
    builder.switch_to_block(cranelift::codegen::ir::Block::from_bits(block))
}

/// `FunctionBuilder::seal_block`: no jump will lead to `block`. The block
/// must be the current one and not sealed yet.
#[verifier::external_body]
pub(crate) fn seal_block(builder: &mut cranelift::frontend::FunctionBuilder<'_>, block: u32)
    requires
        stage_of(*old(builder)) == (BuilderStage::Positioned { block }),
    ensures
        stage_of(*final(builder)) == BuilderStage::Ready,
        emitted(*final(builder)) == emitted(*old(builder)),
        values_of(*final(builder)) == values_of(*old(builder)),
        slots_of(*final(builder)) == slots_of(*old(builder)),
{
    builder.seal_block(cranelift::codegen::ir::Block::from_bits(block))
}

/// `FunctionBuilder::create_sized_stack_slot` with `StackSlotData::new` for
/// an explicit slot of the given size and alignment: a new stack slot, by
/// its number, which no slot had before. Only a slot of 8 bytes with no
/// alignment of its own is admitted.
#[verifier::external_body]
pub(crate) fn create_slot(
    builder: &mut cranelift::frontend::FunctionBuilder<'_>,
    bytes: u32,
    align_shift: u8,
) -> (slot: u32)
    requires
        bytes == 8,
        align_shift == 0,
    ensures
        !slots_of(*old(builder)).dom().contains(slot),
        slots_of(*final(builder)) == slots_of(*old(builder)).insert(
            slot,
            SlotShape { bytes, align_shift },
        ),
        emitted(*final(builder)) == emitted(*old(builder)),
        values_of(*final(builder)) == values_of(*old(builder)),
        stage_of(*final(builder)) == stage_of(*old(builder)),
{
    builder.create_sized_stack_slot(
        cranelift::codegen::ir::StackSlotData::new(
            cranelift::codegen::ir::StackSlotKind::ExplicitSlot,
            bytes,
            align_shift,
        ),
    ).as_bits()
}

/// `InstBuilder::iconst` of type `I64` at the end of the current block: a
/// new value, by its number, which is the given integer, 64 bits wide. No
/// value had that number before.
#[verifier::external_body]
pub(crate) fn emit_constant(
    builder: &mut cranelift::frontend::FunctionBuilder<'_>,
    immediate: i64,
) -> (value: u32)
    requires
        stage_of(*old(builder)) == BuilderStage::Ready,
    ensures
        !values_of(*old(builder)).contains(value),
        emitted(*final(builder)) == emitted(*old(builder)).push(
            Emitted::Constant { result: value, bits: 64, immediate },
        ),
        values_of(*final(builder)) == values_of(*old(builder)).insert(value),
        slots_of(*final(builder)) == slots_of(*old(builder)),
        stage_of(*final(builder)) == BuilderStage::Ready,
{
    cranelift::codegen::ir::InstBuilder::iconst(
        builder.ins(),
        cranelift::codegen::ir::types::I64,
        immediate,
    ).as_bits()
}

/// `InstBuilder::stack_load` of type `I64` from a slot at an offset, at the
/// end of the current block: a new value, by its number, which no value
/// had before. The 8 bytes read must lie within the slot.
#[verifier::external_body]
pub(crate) fn emit_load(
    builder: &mut cranelift::frontend::FunctionBuilder<'_>,
    slot: u32,
    offset: i32,
) -> (value: u32)
    requires
        stage_of(*old(builder)) == BuilderStage::Ready,
        slots_of(*old(builder)).dom().contains(slot),
        0 <= offset,
        offset + 8 <= slots_of(*old(builder))[slot].bytes,
    ensures
        !values_of(*old(builder)).contains(value),
        emitted(*final(builder)) == emitted(*old(builder)).push(
            Emitted::Load { result: value, bits: 64, slot, offset },
        ),
        values_of(*final(builder)) == values_of(*old(builder)).insert(value),
        slots_of(*final(builder)) == slots_of(*old(builder)),
        stage_of(*final(builder)) == BuilderStage::Ready,
{
    cranelift::codegen::ir::InstBuilder::stack_load(
        builder.ins(),
        cranelift::codegen::ir::types::I64,
        cranelift::codegen::ir::StackSlot::from_bits(slot),
        offset,
    ).as_bits()
}

/// `InstBuilder::stack_store` of a value to a slot at an offset, at the end
/// of the current block. It defines no value. The 8 bytes written must lie
/// within the slot.
#[verifier::external_body]
pub(crate) fn emit_store(
    builder: &mut cranelift::frontend::FunctionBuilder<'_>,
    value: u32,
    slot: u32,
    offset: i32,
)
    requires
        stage_of(*old(builder)) == BuilderStage::Ready,
        values_of(*old(builder)).contains(value),
        slots_of(*old(builder)).dom().contains(slot),
        0 <= offset,
        offset + 8 <= slots_of(*old(builder))[slot].bytes,
    ensures
        emitted(*final(builder)) == emitted(*old(builder)).push(
            Emitted::Store { value, slot, offset },
        ),
        values_of(*final(builder)) == values_of(*old(builder)),
        slots_of(*final(builder)) == slots_of(*old(builder)),
        stage_of(*final(builder)) == BuilderStage::Ready,
{
    cranelift::codegen::ir::InstBuilder::stack_store(
        builder.ins(),
        cranelift::codegen::ir::Value::from_bits(value),
        cranelift::codegen::ir::StackSlot::from_bits(slot),
        offset,
    );
}

/// `InstBuilder::iadd` at the end of the current block: the wrapping sum of two values.
/// The result is a new value, by its number, which no value had before.
#[verifier::external_body]
pub(crate) fn emit_add(
    builder: &mut cranelift::frontend::FunctionBuilder<'_>,
    left: u32,
    right: u32,
) -> (value: u32)
    requires
        stage_of(*old(builder)) == BuilderStage::Ready,
        values_of(*old(builder)).contains(left),
        values_of(*old(builder)).contains(right),
    ensures
        !values_of(*old(builder)).contains(value),
        emitted(*final(builder)) == emitted(*old(builder)).push(
            Emitted::Add { result: value, left, right },
        ),
        values_of(*final(builder)) == values_of(*old(builder)).insert(value),
        slots_of(*final(builder)) == slots_of(*old(builder)),
        stage_of(*final(builder)) == BuilderStage::Ready,
{
    cranelift::codegen::ir::InstBuilder::iadd(
        builder.ins(),
        cranelift::codegen::ir::Value::from_bits(left),
        cranelift::codegen::ir::Value::from_bits(right),
    ).as_bits()
}

/// `InstBuilder::isub` at the end of the current block: the wrapping difference of two
/// values.
/// The result is a new value, by its number, which no value had before.
#[verifier::external_body]
pub(crate) fn emit_subtract(
    builder: &mut cranelift::frontend::FunctionBuilder<'_>,
    left: u32,
    right: u32,
) -> (value: u32)
    requires
        stage_of(*old(builder)) == BuilderStage::Ready,
        values_of(*old(builder)).contains(left),
        values_of(*old(builder)).contains(right),
    ensures
        !values_of(*old(builder)).contains(value),
        emitted(*final(builder)) == emitted(*old(builder)).push(
            Emitted::Subtract { result: value, left, right },
        ),
        values_of(*final(builder)) == values_of(*old(builder)).insert(value),
        slots_of(*final(builder)) == slots_of(*old(builder)),
        stage_of(*final(builder)) == BuilderStage::Ready,
{
    cranelift::codegen::ir::InstBuilder::isub(
        builder.ins(),
        cranelift::codegen::ir::Value::from_bits(left),
        cranelift::codegen::ir::Value::from_bits(right),
    ).as_bits()
}

/// `InstBuilder::imul` at the end of the current block: the wrapping product of two
/// values.
/// The result is a new value, by its number, which no value had before.
#[verifier::external_body]
pub(crate) fn emit_multiply(
    builder: &mut cranelift::frontend::FunctionBuilder<'_>,
    left: u32,
    right: u32,
) -> (value: u32)
    requires
        stage_of(*old(builder)) == BuilderStage::Ready,
        values_of(*old(builder)).contains(left),
        values_of(*old(builder)).contains(right),
    ensures
        !values_of(*old(builder)).contains(value),
        emitted(*final(builder)) == emitted(*old(builder)).push(
            Emitted::Multiply { result: value, left, right },
        ),
        values_of(*final(builder)) == values_of(*old(builder)).insert(value),
        slots_of(*final(builder)) == slots_of(*old(builder)),
        stage_of(*final(builder)) == BuilderStage::Ready,
{
    cranelift::codegen::ir::InstBuilder::imul(
        builder.ins(),
        cranelift::codegen::ir::Value::from_bits(left),
        cranelift::codegen::ir::Value::from_bits(right),
    ).as_bits()
}

/// `InstBuilder::sdiv` at the end of the current block: the signed quotient of two
/// values, rounded towards zero.
/// The result is a new value, by its number, which no value had before.
#[verifier::external_body]
pub(crate) fn emit_divide(
    builder: &mut cranelift::frontend::FunctionBuilder<'_>,
    left: u32,
    right: u32,
) -> (value: u32)
    requires
        stage_of(*old(builder)) == BuilderStage::Ready,
        values_of(*old(builder)).contains(left),
        values_of(*old(builder)).contains(right),
    ensures
        !values_of(*old(builder)).contains(value),
        emitted(*final(builder)) == emitted(*old(builder)).push(
            Emitted::SignedDivide { result: value, left, right },
        ),
        values_of(*final(builder)) == values_of(*old(builder)).insert(value),
        slots_of(*final(builder)) == slots_of(*old(builder)),
        stage_of(*final(builder)) == BuilderStage::Ready,
{
    cranelift::codegen::ir::InstBuilder::sdiv(
        builder.ins(),
        cranelift::codegen::ir::Value::from_bits(left),
        cranelift::codegen::ir::Value::from_bits(right),
    ).as_bits()
}

/// `InstBuilder::return_` of one value at the end of the current block,
/// which it ends.
#[verifier::external_body]
pub(crate) fn emit_return(builder: &mut cranelift::frontend::FunctionBuilder<'_>, value: u32)
    requires
        stage_of(*old(builder)) == BuilderStage::Ready,
        values_of(*old(builder)).contains(value),
    ensures
        emitted(*final(builder)) == emitted(*old(builder)).push(Emitted::Return { value }),
        values_of(*final(builder)) == values_of(*old(builder)),
        slots_of(*final(builder)) == slots_of(*old(builder)),
        stage_of(*final(builder)) == BuilderStage::Returned,
{
    cranelift::codegen::ir::InstBuilder::return_(
        builder.ins(),
        &[cranelift::codegen::ir::Value::from_bits(value)],
    );
}

/// `FunctionBuilder::finalize`: the function is complete. Its block must be
/// sealed and end with a return.
#[verifier::external_body]
pub(crate) fn finalize(builder: cranelift::frontend::FunctionBuilder<'_>)
    requires
        stage_of(builder) == BuilderStage::Returned,
{
    builder.finalize()
}

/// Whether a function of the given name is declared in `declared`.
pub open spec fn declares(declared: Map<u32, Declaration>, name: Seq<char>) -> bool {
    exists|function: u32| #[trigger] declared.dom().contains(function) && declared[function].name == name
}

/// `Module::declare_function` with linkage `Export` and the signature of
/// the function in `context`, for a name under which no function is
/// declared yet: the number of the function declared, which is a new one;
/// or an error, which leaves the module as it was.
#[verifier::external_body]
pub(crate) fn declare_exported(
    module: &mut cranelift::object::ObjectModule,
    name: &str,
    context: &cranelift::codegen::Context,
) -> (result: Result<u32, cranelift::module::ModuleError>)
    requires
        !declares(declared_in(*old(module)), name@),
    ensures
        defined_in(*final(module)) == defined_in(*old(module)),
        declared_in(*final(module)) == match result {
            Ok(function) => declared_in(*old(module)).insert(
                function,
                Declaration { name: name@, exported: true, results: results_of(*context) },
            ),
            Err(_) => declared_in(*old(module)),
        },
        result matches Ok(function) ==> !declared_in(*old(module)).dom().contains(function),
{
    match cranelift::module::Module::declare_function(
        module,
        name,
        cranelift::module::Linkage::Export,
        &context.func.signature,
    ) {
        Ok(function) => Ok(function.as_bits()),
        Err(error) => Err(error),
    }
}

/// `Module::define_function`: compiles the function in `context` and makes
/// it the definition of a function declared in the module; or an error,
/// which leaves the module as it was. The function compiled must have an
/// entry block: Cranelift panics on one without.
#[verifier::external_body]
pub(crate) fn define(
    module: &mut cranelift::object::ObjectModule,
    function: u32,
    context: &mut cranelift::codegen::Context,
) -> (result: Result<(), cranelift::module::ModuleError>)
    requires
        declared_in(*old(module)).dom().contains(function),
        has_entry(*old(context)),
    ensures
        declared_in(*final(module)) == declared_in(*old(module)),
        defined_in(*final(module)) == match result {
            Ok(_) => defined_in(*old(module)).insert(function),
            Err(_) => defined_in(*old(module)),
        },
{
    cranelift::module::Module::define_function(
        module,
        cranelift::module::FuncId::from_bits(function),
        context,
    )
}

/// `Module::clear_context`: empties `context` for the next function.
/// Nothing is claimed of the context.
#[verifier::external_body]
pub(crate) fn clear_context(
    module: &cranelift::object::ObjectModule,
    context: &mut cranelift::codegen::Context,
) {
    cranelift::module::Module::clear_context(module, context)
}

/// `ObjectModule::finish`: the finished object. Every function declared
/// must be defined. Nothing is claimed of the result.
#[verifier::external_body]
pub(crate) fn finish_module(module: cranelift::object::ObjectModule) -> cranelift::object::ObjectProduct
    requires
        declared_in(module).dom().subset_of(defined_in(module)),
{
    module.finish()
}

/// `ObjectProduct::emit`: the bytes of the object file, or the writer's
/// error. The bytes depend on the machine. Whatever the format of the
/// file, the writer starts it with a file header, so there is at least one
/// byte; nothing more is claimed of them.
#[verifier::external_body]
pub(crate) fn emit_bytes(product: cranelift::object::ObjectProduct) -> (result: Result<
    Vec<u8>,
    cranelift::object::object::write::Error,
>)
    ensures
        result matches Ok(bytes) ==> bytes@.len() > 0,
{
    product.emit()
}

/// The text of a `SetError`, as its `Display` gives it. Nothing is claimed
/// of the text.
#[verifier::external_body]
pub(crate) fn describe_set_error(error: &cranelift::codegen::settings::SetError) -> String {
    error.to_string()
}

/// The text of a `ModuleError`, as its `Display` gives it. Nothing is
/// claimed of the text.
#[verifier::external_body]
pub(crate) fn describe_module_error(error: &cranelift::module::ModuleError) -> String {
    error.to_string()
}

/// The text of the object writer's error, as its `Display` gives it.
/// Nothing is claimed of the text.
#[verifier::external_body]
pub(crate) fn describe_write_error(error: &cranelift::object::object::write::Error) -> String {
    error.to_string()
}

} // verus!
