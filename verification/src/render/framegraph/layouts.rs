//! The state an image is in between two uses.

use crate::vk::{
    access_contains, stage_contains, AccessFlags2, ImageLayout, ImageSubresourceRange,
    PipelineStageFlags2, ACCESS_2_COLOR_ATTACHMENT_READ, ACCESS_2_COLOR_ATTACHMENT_WRITE,
    ACCESS_2_NONE, ACCESS_2_SHADER_READ, ACCESS_2_SHADER_WRITE, ACCESS_2_TRANSFER_READ,
    ACCESS_2_TRANSFER_WRITE, IMAGE_ASPECT_COLOR, IMAGE_ASPECT_DEPTH,
    IMAGE_LAYOUT_COLOR_ATTACHMENT_OPTIMAL, IMAGE_LAYOUT_GENERAL, IMAGE_LAYOUT_PRESENT_SRC,
    IMAGE_LAYOUT_SHADER_READ_ONLY_OPTIMAL, IMAGE_LAYOUT_TRANSFER_DST_OPTIMAL,
    IMAGE_LAYOUT_TRANSFER_SRC_OPTIMAL, IMAGE_LAYOUT_UNDEFINED, PIPELINE_STAGE_2_BOTTOM_OF_PIPE,
    PIPELINE_STAGE_2_COLOR_ATTACHMENT_OUTPUT, PIPELINE_STAGE_2_COMPUTE_SHADER,
    PIPELINE_STAGE_2_NONE, PIPELINE_STAGE_2_TOP_OF_PIPE, PIPELINE_STAGE_2_TRANSFER,
};
use vstd::prelude::*;

verus! {

/// The state a resource was last known to be in after some pass used it:
/// its layout, the pipeline stages that touched it and how they accessed it.
#[derive(Copy, Clone, Debug, PartialEq, Eq, Structural)]
pub struct ImageState {
    pub layout: ImageLayout,
    pub stage: PipelineStageFlags2,
    pub access: AccessFlags2,
}

impl ImageState {
    /// The state of an image that no pass has used: no layout, and no stage
    /// or access to wait for.
    pub open spec fn spec_unused() -> ImageState {
        ImageState {
            layout: IMAGE_LAYOUT_UNDEFINED,
            stage: PIPELINE_STAGE_2_NONE,
            access: ACCESS_2_NONE,
        }
    }

    #[verifier::when_used_as_spec(spec_unused)]
    pub fn unused() -> (state: ImageState)
        ensures
            state == Self::spec_unused(),
    {
        ImageState {
            layout: IMAGE_LAYOUT_UNDEFINED,
            stage: PIPELINE_STAGE_2_NONE,
            access: ACCESS_2_NONE,
        }
    }

    /// The state from which the first use of a physical image starts: nothing
    /// is known of the contents, and the transition waits at the top of the
    /// pipeline.
    pub open spec fn spec_undefined() -> ImageState {
        ImageState {
            layout: IMAGE_LAYOUT_UNDEFINED,
            stage: PIPELINE_STAGE_2_TOP_OF_PIPE,
            access: ACCESS_2_NONE,
        }
    }

    #[verifier::when_used_as_spec(spec_undefined)]
    pub fn undefined() -> (state: ImageState)
        ensures
            state == Self::spec_undefined(),
    {
        ImageState {
            layout: IMAGE_LAYOUT_UNDEFINED,
            stage: PIPELINE_STAGE_2_TOP_OF_PIPE,
            access: ACCESS_2_NONE,
        }
    }

    /// Written as a color attachment.
    pub open spec fn spec_color_attachment_write() -> ImageState {
        ImageState {
            layout: IMAGE_LAYOUT_COLOR_ATTACHMENT_OPTIMAL,
            stage: PIPELINE_STAGE_2_COLOR_ATTACHMENT_OUTPUT,
            access: ACCESS_2_COLOR_ATTACHMENT_WRITE,
        }
    }

    #[verifier::when_used_as_spec(spec_color_attachment_write)]
    pub fn color_attachment_write() -> (state: ImageState)
        ensures
            state == Self::spec_color_attachment_write(),
    {
        ImageState {
            layout: IMAGE_LAYOUT_COLOR_ATTACHMENT_OPTIMAL,
            stage: PIPELINE_STAGE_2_COLOR_ATTACHMENT_OUTPUT,
            access: ACCESS_2_COLOR_ATTACHMENT_WRITE,
        }
    }

    /// Handed over for presentation after the last color write.
    pub open spec fn spec_present() -> ImageState {
        ImageState {
            layout: IMAGE_LAYOUT_PRESENT_SRC,
            stage: PIPELINE_STAGE_2_COLOR_ATTACHMENT_OUTPUT,
            access: ACCESS_2_COLOR_ATTACHMENT_WRITE,
        }
    }

    #[verifier::when_used_as_spec(spec_present)]
    pub fn present() -> (state: ImageState)
        ensures
            state == Self::spec_present(),
    {
        ImageState {
            layout: IMAGE_LAYOUT_PRESENT_SRC,
            stage: PIPELINE_STAGE_2_COLOR_ATTACHMENT_OUTPUT,
            access: ACCESS_2_COLOR_ATTACHMENT_WRITE,
        }
    }

    /// The state in which a presentation image begins a run: presentable,
    /// with no work pending on it.
    pub open spec fn spec_presentation_ready() -> ImageState {
        ImageState {
            layout: IMAGE_LAYOUT_PRESENT_SRC,
            stage: PIPELINE_STAGE_2_BOTTOM_OF_PIPE,
            access: ACCESS_2_NONE,
        }
    }

    #[verifier::when_used_as_spec(spec_presentation_ready)]
    pub fn presentation_ready() -> (state: ImageState)
        ensures
            state == Self::spec_presentation_ready(),
    {
        ImageState {
            layout: IMAGE_LAYOUT_PRESENT_SRC,
            stage: PIPELINE_STAGE_2_BOTTOM_OF_PIPE,
            access: ACCESS_2_NONE,
        }
    }
}

/// The first mip level and array layer of the color aspect.
pub open spec fn spec_color_range() -> ImageSubresourceRange {
    ImageSubresourceRange {
        aspect_mask: IMAGE_ASPECT_COLOR,
        base_mip_level: 0,
        level_count: 1,
        base_array_layer: 0,
        layer_count: 1,
    }
}

#[verifier::when_used_as_spec(spec_color_range)]
pub fn color_range() -> (range: ImageSubresourceRange)
    ensures
        range == spec_color_range(),
{
    ImageSubresourceRange {
        aspect_mask: IMAGE_ASPECT_COLOR,
        base_mip_level: 0,
        level_count: 1,
        base_array_layer: 0,
        layer_count: 1,
    }
}

/// The first mip level and array layer of the depth aspect.
pub open spec fn spec_depth_range() -> ImageSubresourceRange {
    ImageSubresourceRange {
        aspect_mask: IMAGE_ASPECT_DEPTH,
        base_mip_level: 0,
        level_count: 1,
        base_array_layer: 0,
        layer_count: 1,
    }
}

#[verifier::when_used_as_spec(spec_depth_range)]
pub fn depth_range() -> (range: ImageSubresourceRange)
    ensures
        range == spec_depth_range(),
{
    ImageSubresourceRange {
        aspect_mask: IMAGE_ASPECT_DEPTH,
        base_mip_level: 0,
        level_count: 1,
        base_array_layer: 0,
        layer_count: 1,
    }
}

/// The name of a layout, for the layouts that have one here.
pub open spec fn layout_name(layout: ImageLayout) -> Seq<char> {
    if layout == IMAGE_LAYOUT_UNDEFINED {
        "UNDEFINED"@
    } else if layout == IMAGE_LAYOUT_COLOR_ATTACHMENT_OPTIMAL {
        "COLOR_ATTACHMENT_OPTIMAL"@
    } else if layout == IMAGE_LAYOUT_PRESENT_SRC {
        "PRESENT_SRC_KHR"@
    } else if layout == IMAGE_LAYOUT_GENERAL {
        "GENERAL"@
    } else if layout == IMAGE_LAYOUT_TRANSFER_SRC_OPTIMAL {
        "TRANSFER_SRC_OPTIMAL"@
    } else if layout == IMAGE_LAYOUT_TRANSFER_DST_OPTIMAL {
        "TRANSFER_DST_OPTIMAL"@
    } else if layout == IMAGE_LAYOUT_SHADER_READ_ONLY_OPTIMAL {
        "SHADER_READ_ONLY_OPTIMAL"@
    } else {
        "OTHER"@
    }
}

/// `names` with `name` behind them if `present`.
pub open spec fn with_name(names: Seq<Seq<char>>, present: bool, name: Seq<char>) -> Seq<Seq<char>> {
    if present {
        names.push(name)
    } else {
        names
    }
}

/// `names`, or the one name `NONE` where there is none.
pub open spec fn or_none(names: Seq<Seq<char>>) -> Seq<Seq<char>> {
    if names.len() == 0 {
        seq!["NONE"@]
    } else {
        names
    }
}

/// The names of the stages that a stage set holds, of those that have a
/// name here, in a fixed order.
pub open spec fn stage_names(stage: PipelineStageFlags2) -> Seq<Seq<char>> {
    or_none(
        with_name(
            with_name(
                with_name(
                    with_name(
                        with_name(
                            Seq::empty(),
                            stage_contains(stage, PIPELINE_STAGE_2_TOP_OF_PIPE),
                            "TOP_OF_PIPE"@,
                        ),
                        stage_contains(stage, PIPELINE_STAGE_2_COLOR_ATTACHMENT_OUTPUT),
                        "COLOR_ATTACHMENT_OUTPUT"@,
                    ),
                    stage_contains(stage, PIPELINE_STAGE_2_BOTTOM_OF_PIPE),
                    "BOTTOM_OF_PIPE"@,
                ),
                stage_contains(stage, PIPELINE_STAGE_2_TRANSFER),
                "TRANSFER"@,
            ),
            stage_contains(stage, PIPELINE_STAGE_2_COMPUTE_SHADER),
            "COMPUTE_SHADER"@,
        ),
    )
}

/// The names of the access kinds that an access set holds, of those that
/// have a name here, in a fixed order.
pub open spec fn access_names(access: AccessFlags2) -> Seq<Seq<char>> {
    or_none(
        with_name(
            with_name(
                with_name(
                    with_name(
                        with_name(
                            with_name(
                                Seq::empty(),
                                access_contains(access, ACCESS_2_COLOR_ATTACHMENT_WRITE),
                                "COLOR_ATTACHMENT_WRITE"@,
                            ),
                            access_contains(access, ACCESS_2_COLOR_ATTACHMENT_READ),
                            "COLOR_ATTACHMENT_READ"@,
                        ),
                        access_contains(access, ACCESS_2_TRANSFER_READ),
                        "TRANSFER_READ"@,
                    ),
                    access_contains(access, ACCESS_2_TRANSFER_WRITE),
                    "TRANSFER_WRITE"@,
                ),
                access_contains(access, ACCESS_2_SHADER_READ),
                "SHADER_READ"@,
            ),
            access_contains(access, ACCESS_2_SHADER_WRITE),
            "SHADER_WRITE"@,
        ),
    )
}

/// Whether `names` are the strings `texts`, one for one.
pub open spec fn names_are(names: Seq<&'static str>, texts: Seq<Seq<char>>) -> bool {
    names.len() == texts.len() && forall|i: int| 0 <= i < names.len() ==> (#[trigger] names[i])@
        == texts[i]
}

/// `text` with one line behind it for each of the first `n` names: the
/// name in quotes, indented, with a comma.
pub open spec fn with_lines(text: Seq<char>, names: Seq<Seq<char>>, n: int) -> Seq<char>
    decreases n,
{
    if n <= 0 {
        text
    } else {
        with_lines(text, names, n - 1) + "    \""@ + names[n - 1] + "\",\n"@
    }
}

/// `text` with the first `n` names behind it, `separator` between them.
pub open spec fn with_joined(
    text: Seq<char>,
    names: Seq<Seq<char>>,
    separator: Seq<char>,
    n: int,
) -> Seq<char>
    decreases n,
{
    if n <= 0 {
        text
    } else if n == 1 {
        text + names[0]
    } else {
        with_joined(text, names, separator, n - 1) + separator + names[n - 1]
    }
}

/// The text of a state: its layout, its stages and its access kinds, by
/// name, laid out over several lines.
pub open spec fn state_text(state: ImageState) -> Seq<char> {
    with_lines(
        with_lines(
            "{\n"@ + "  \"layout\": \""@ + layout_name(state.layout) + "\",\n"@ + "  \"stage\": [\n"@,
            stage_names(state.stage),
            stage_names(state.stage).len() as int,
        ) + "  ],\n"@ + "  \"access\": [\n"@,
        access_names(state.access),
        access_names(state.access).len() as int,
    ) + "  ]\n"@ + "}"@
}

/// The text that tells of a transition from `old` to `new` of the image
/// called `debug_name`: what changes of layout, stages and access kinds.
pub open spec fn transition_text(old: ImageState, new: ImageState, debug_name: Seq<char>) -> Seq<
    char,
> {
    with_joined(
        with_joined(
            with_joined(
                with_joined(
                    debug_name + "\n     layout: "@ + layout_name(old.layout) + " -> "@
                        + layout_name(new.layout) + "\n     stage:  "@,
                    stage_names(old.stage),
                    " | "@,
                    stage_names(old.stage).len() as int,
                ) + " -> "@,
                stage_names(new.stage),
                " | "@,
                stage_names(new.stage).len() as int,
            ) + "\n     access: "@,
            access_names(old.access),
            " | "@,
            access_names(old.access).len() as int,
        ) + " -> "@,
        access_names(new.access),
        " | "@,
        access_names(new.access).len() as int,
    )
}

/// The name of a layout.
pub fn layout_str(layout: ImageLayout) -> (name: &'static str)
    ensures
        name@ == layout_name(layout),
{
    if layout == IMAGE_LAYOUT_UNDEFINED {
        "UNDEFINED"
    } else if layout == IMAGE_LAYOUT_COLOR_ATTACHMENT_OPTIMAL {
        "COLOR_ATTACHMENT_OPTIMAL"
    } else if layout == IMAGE_LAYOUT_PRESENT_SRC {
        "PRESENT_SRC_KHR"
    } else if layout == IMAGE_LAYOUT_GENERAL {
        "GENERAL"
    } else if layout == IMAGE_LAYOUT_TRANSFER_SRC_OPTIMAL {
        "TRANSFER_SRC_OPTIMAL"
    } else if layout == IMAGE_LAYOUT_TRANSFER_DST_OPTIMAL {
        "TRANSFER_DST_OPTIMAL"
    } else if layout == IMAGE_LAYOUT_SHADER_READ_ONLY_OPTIMAL {
        "SHADER_READ_ONLY_OPTIMAL"
    } else {
        "OTHER"
    }
}

/// Puts `name` behind `names` if `present`.
fn push_name(names: &mut Vec<&'static str>, present: bool, name: &'static str, Ghost(texts): Ghost<
    Seq<Seq<char>>,
>)
    requires
        names_are(old(names)@, texts),
    ensures
        names_are(final(names)@, with_name(texts, present, name@)),
{
    if present {
        names.push(name);
    }
}

/// Puts the name `NONE` into `names` if they are empty.
fn push_none(names: &mut Vec<&'static str>, Ghost(texts): Ghost<Seq<Seq<char>>>)
    requires
        names_are(old(names)@, texts),
    ensures
        names_are(final(names)@, or_none(texts)),
{
    if names.len() == 0 {
        names.push("NONE");
    }
}

/// The names of the stages that a stage set holds.
pub fn stage_strs(stage: PipelineStageFlags2) -> (names: Vec<&'static str>)
    ensures
        names_are(names@, stage_names(stage)),
{
    let mut names: Vec<&'static str> = Vec::new();
    let ghost mut texts = Seq::<Seq<char>>::empty();
    let present = stage & PIPELINE_STAGE_2_TOP_OF_PIPE == PIPELINE_STAGE_2_TOP_OF_PIPE;
    push_name(&mut names, present, "TOP_OF_PIPE", Ghost(texts));
    proof {
        texts = with_name(texts, present, "TOP_OF_PIPE"@);
    }
    let present = stage & PIPELINE_STAGE_2_COLOR_ATTACHMENT_OUTPUT
        == PIPELINE_STAGE_2_COLOR_ATTACHMENT_OUTPUT;
    push_name(&mut names, present, "COLOR_ATTACHMENT_OUTPUT", Ghost(texts));
    proof {
        texts = with_name(texts, present, "COLOR_ATTACHMENT_OUTPUT"@);
    }
    let present = stage & PIPELINE_STAGE_2_BOTTOM_OF_PIPE == PIPELINE_STAGE_2_BOTTOM_OF_PIPE;
    push_name(&mut names, present, "BOTTOM_OF_PIPE", Ghost(texts));
    proof {
        texts = with_name(texts, present, "BOTTOM_OF_PIPE"@);
    }
    let present = stage & PIPELINE_STAGE_2_TRANSFER == PIPELINE_STAGE_2_TRANSFER;
    push_name(&mut names, present, "TRANSFER", Ghost(texts));
    proof {
        texts = with_name(texts, present, "TRANSFER"@);
    }
    let present = stage & PIPELINE_STAGE_2_COMPUTE_SHADER == PIPELINE_STAGE_2_COMPUTE_SHADER;
    push_name(&mut names, present, "COMPUTE_SHADER", Ghost(texts));
    proof {
        texts = with_name(texts, present, "COMPUTE_SHADER"@);
    }
    push_none(&mut names, Ghost(texts));
    names
}

/// The names of the access kinds that an access set holds.
pub fn access_strs(access: AccessFlags2) -> (names: Vec<&'static str>)
    ensures
        names_are(names@, access_names(access)),
{
    let mut names: Vec<&'static str> = Vec::new();
    let ghost mut texts = Seq::<Seq<char>>::empty();
    let present = access & ACCESS_2_COLOR_ATTACHMENT_WRITE == ACCESS_2_COLOR_ATTACHMENT_WRITE;
    push_name(&mut names, present, "COLOR_ATTACHMENT_WRITE", Ghost(texts));
    proof {
        texts = with_name(texts, present, "COLOR_ATTACHMENT_WRITE"@);
    }
    let present = access & ACCESS_2_COLOR_ATTACHMENT_READ == ACCESS_2_COLOR_ATTACHMENT_READ;
    push_name(&mut names, present, "COLOR_ATTACHMENT_READ", Ghost(texts));
    proof {
        texts = with_name(texts, present, "COLOR_ATTACHMENT_READ"@);
    }
    let present = access & ACCESS_2_TRANSFER_READ == ACCESS_2_TRANSFER_READ;
    push_name(&mut names, present, "TRANSFER_READ", Ghost(texts));
    proof {
        texts = with_name(texts, present, "TRANSFER_READ"@);
    }
    let present = access & ACCESS_2_TRANSFER_WRITE == ACCESS_2_TRANSFER_WRITE;
    push_name(&mut names, present, "TRANSFER_WRITE", Ghost(texts));
    proof {
        texts = with_name(texts, present, "TRANSFER_WRITE"@);
    }
    let present = access & ACCESS_2_SHADER_READ == ACCESS_2_SHADER_READ;
    push_name(&mut names, present, "SHADER_READ", Ghost(texts));
    proof {
        texts = with_name(texts, present, "SHADER_READ"@);
    }
    let present = access & ACCESS_2_SHADER_WRITE == ACCESS_2_SHADER_WRITE;
    push_name(&mut names, present, "SHADER_WRITE", Ghost(texts));
    proof {
        texts = with_name(texts, present, "SHADER_WRITE"@);
    }
    push_none(&mut names, Ghost(texts));
    names
}

/// Puts one line behind `text` for each of `names`.
fn append_lines(text: &mut String, names: &Vec<&'static str>, Ghost(texts): Ghost<Seq<Seq<char>>>)
    requires
        names_are(names@, texts),
    ensures
        final(text)@ == with_lines(old(text)@, texts, texts.len() as int),
{
    let mut i: usize = 0;
    while i < names.len()
        invariant
            0 <= i <= names@.len(),
            names_are(names@, texts),
            text@ == with_lines(old(text)@, texts, i as int),
        decreases names@.len() - i,
    {
        text.append("    \"");
        text.append(names[i]);
        text.append("\",\n");
        i += 1;
    }
}

/// Puts `names` behind `text`, `separator` between them.
fn append_joined(
    text: &mut String,
    names: &Vec<&'static str>,
    separator: &str,
    Ghost(texts): Ghost<Seq<Seq<char>>>,
)
    requires
        names_are(names@, texts),
    ensures
        final(text)@ == with_joined(old(text)@, texts, separator@, texts.len() as int),
{
    let mut i: usize = 0;
    while i < names.len()
        invariant
            0 <= i <= names@.len(),
            names_are(names@, texts),
            text@ == with_joined(old(text)@, texts, separator@, i as int),
        decreases names@.len() - i,
    {
        if i > 0 {
            text.append(separator);
        }
        text.append(names[i]);
        i += 1;
    }
}

impl ImageState {
    /// The state as text, laid out over several lines.
    pub fn to_text(&self) -> (text: String)
        ensures
            text@ == state_text(*self),
    {
        let stages = stage_strs(self.stage);
        let accesses = access_strs(self.access);
        let mut text = String::from_str("{\n");
        text.append("  \"layout\": \"");
        text.append(layout_str(self.layout));
        text.append("\",\n");
        text.append("  \"stage\": [\n");
        append_lines(&mut text, &stages, Ghost(stage_names(self.stage)));
        text.append("  ],\n");
        text.append("  \"access\": [\n");
        append_lines(&mut text, &accesses, Ghost(access_names(self.access)));
        text.append("  ]\n");
        text.append("}");
        text
    }
}

/// The text that tells of a transition of the image called `debug_name`.
pub fn describe_image_transition(old: ImageState, new: ImageState, debug_name: &str) -> (text:
    String)
    ensures
        text@ == transition_text(old, new, debug_name@),
{
    let mut text = String::from_str(debug_name);
    text.append("\n     layout: ");
    text.append(layout_str(old.layout));
    text.append(" -> ");
    text.append(layout_str(new.layout));
    text.append("\n     stage:  ");
    let names = stage_strs(old.stage);
    append_joined(&mut text, &names, " | ", Ghost(stage_names(old.stage)));
    text.append(" -> ");
    let names = stage_strs(new.stage);
    append_joined(&mut text, &names, " | ", Ghost(stage_names(new.stage)));
    text.append("\n     access: ");
    let names = access_strs(old.access);
    append_joined(&mut text, &names, " | ", Ghost(access_names(old.access)));
    text.append(" -> ");
    let names = access_strs(new.access);
    append_joined(&mut text, &names, " | ", Ghost(access_names(new.access)));
    text
}

} // verus!
