use arbor::render::framegraph::pass::WRITE_ACCESS;
use arbor::vk::{
    ACCESS_2_COLOR_ATTACHMENT_READ, ACCESS_2_COLOR_ATTACHMENT_WRITE,
    ACCESS_2_DEPTH_STENCIL_ATTACHMENT_WRITE, ACCESS_2_MEMORY_WRITE, ACCESS_2_NONE,
    ACCESS_2_SHADER_READ, ACCESS_2_SHADER_WRITE, ACCESS_2_TRANSFER_READ, ACCESS_2_TRANSFER_WRITE,
    COLOR_SPACE_SRGB_NONLINEAR, FORMAT_B8G8R8A8_SRGB, FORMAT_B8G8R8A8_UNORM, FORMAT_D16_UNORM,
    FORMAT_D24_UNORM_S8_UINT, FORMAT_D32_SFLOAT, FORMAT_D32_SFLOAT_S8_UINT,
    FORMAT_R16G16B16A16_SFLOAT, FORMAT_UNDEFINED, IMAGE_ASPECT_COLOR, IMAGE_ASPECT_DEPTH,
    IMAGE_ASPECT_DEPTH_STENCIL, IMAGE_ASPECT_STENCIL, IMAGE_LAYOUT_COLOR_ATTACHMENT_OPTIMAL,
    IMAGE_LAYOUT_DEPTH_ATTACHMENT_OPTIMAL, IMAGE_LAYOUT_GENERAL, IMAGE_LAYOUT_PRESENT_SRC,
    IMAGE_LAYOUT_SHADER_READ_ONLY_OPTIMAL, IMAGE_LAYOUT_TRANSFER_DST_OPTIMAL,
    IMAGE_LAYOUT_TRANSFER_SRC_OPTIMAL, IMAGE_LAYOUT_UNDEFINED, IMAGE_USAGE_COLOR_ATTACHMENT,
    IMAGE_USAGE_DEPTH_STENCIL_ATTACHMENT, IMAGE_USAGE_SAMPLED, IMAGE_VIEW_TYPE_2D,
    IMAGE_VIEW_TYPE_2D_ARRAY, PIPELINE_STAGE_2_BOTTOM_OF_PIPE,
    PIPELINE_STAGE_2_COLOR_ATTACHMENT_OUTPUT, PIPELINE_STAGE_2_COMPUTE_SHADER,
    PIPELINE_STAGE_2_EARLY_FRAGMENT_TESTS, PIPELINE_STAGE_2_FRAGMENT_SHADER,
    PIPELINE_STAGE_2_NONE, PIPELINE_STAGE_2_TOP_OF_PIPE, PIPELINE_STAGE_2_TRANSFER,
    PRESENT_MODE_FIFO, PRESENT_MODE_IMMEDIATE, PRESENT_MODE_MAILBOX,
    PRIMITIVE_TOPOLOGY_TRIANGLE_LIST, SAMPLE_COUNT_1,
};
use ash::vk;

#[test]
fn layouts_are_the_numbers_of_the_gpu_api() {
    assert_eq!(IMAGE_LAYOUT_UNDEFINED, vk::ImageLayout::UNDEFINED.as_raw());
    assert_eq!(IMAGE_LAYOUT_GENERAL, vk::ImageLayout::GENERAL.as_raw());
    assert_eq!(
        IMAGE_LAYOUT_COLOR_ATTACHMENT_OPTIMAL,
        vk::ImageLayout::COLOR_ATTACHMENT_OPTIMAL.as_raw()
    );
    assert_eq!(
        IMAGE_LAYOUT_SHADER_READ_ONLY_OPTIMAL,
        vk::ImageLayout::SHADER_READ_ONLY_OPTIMAL.as_raw()
    );
    assert_eq!(IMAGE_LAYOUT_TRANSFER_SRC_OPTIMAL, vk::ImageLayout::TRANSFER_SRC_OPTIMAL.as_raw());
    assert_eq!(IMAGE_LAYOUT_TRANSFER_DST_OPTIMAL, vk::ImageLayout::TRANSFER_DST_OPTIMAL.as_raw());
    assert_eq!(IMAGE_LAYOUT_PRESENT_SRC, vk::ImageLayout::PRESENT_SRC_KHR.as_raw());
    assert_eq!(
        IMAGE_LAYOUT_DEPTH_ATTACHMENT_OPTIMAL,
        vk::ImageLayout::DEPTH_ATTACHMENT_OPTIMAL.as_raw()
    );
}

#[test]
fn stages_and_access_kinds_are_the_bits_of_the_gpu_api() {
    assert_eq!(PIPELINE_STAGE_2_NONE, vk::PipelineStageFlags2::NONE.as_raw());
    assert_eq!(PIPELINE_STAGE_2_TOP_OF_PIPE, vk::PipelineStageFlags2::TOP_OF_PIPE.as_raw());
    assert_eq!(PIPELINE_STAGE_2_FRAGMENT_SHADER, vk::PipelineStageFlags2::FRAGMENT_SHADER.as_raw());
    assert_eq!(
        PIPELINE_STAGE_2_EARLY_FRAGMENT_TESTS,
        vk::PipelineStageFlags2::EARLY_FRAGMENT_TESTS.as_raw()
    );
    assert_eq!(
        PIPELINE_STAGE_2_COLOR_ATTACHMENT_OUTPUT,
        vk::PipelineStageFlags2::COLOR_ATTACHMENT_OUTPUT.as_raw()
    );
    assert_eq!(PIPELINE_STAGE_2_COMPUTE_SHADER, vk::PipelineStageFlags2::COMPUTE_SHADER.as_raw());
    assert_eq!(PIPELINE_STAGE_2_TRANSFER, vk::PipelineStageFlags2::TRANSFER.as_raw());
    assert_eq!(PIPELINE_STAGE_2_BOTTOM_OF_PIPE, vk::PipelineStageFlags2::BOTTOM_OF_PIPE.as_raw());

    assert_eq!(ACCESS_2_NONE, vk::AccessFlags2::NONE.as_raw());
    assert_eq!(ACCESS_2_SHADER_READ, vk::AccessFlags2::SHADER_READ.as_raw());
    assert_eq!(ACCESS_2_SHADER_WRITE, vk::AccessFlags2::SHADER_WRITE.as_raw());
    assert_eq!(ACCESS_2_COLOR_ATTACHMENT_READ, vk::AccessFlags2::COLOR_ATTACHMENT_READ.as_raw());
    assert_eq!(ACCESS_2_COLOR_ATTACHMENT_WRITE, vk::AccessFlags2::COLOR_ATTACHMENT_WRITE.as_raw());
    assert_eq!(
        ACCESS_2_DEPTH_STENCIL_ATTACHMENT_WRITE,
        vk::AccessFlags2::DEPTH_STENCIL_ATTACHMENT_WRITE.as_raw()
    );
    assert_eq!(ACCESS_2_TRANSFER_READ, vk::AccessFlags2::TRANSFER_READ.as_raw());
    assert_eq!(ACCESS_2_TRANSFER_WRITE, vk::AccessFlags2::TRANSFER_WRITE.as_raw());
    assert_eq!(ACCESS_2_MEMORY_WRITE, vk::AccessFlags2::MEMORY_WRITE.as_raw());
    let writes = vk::AccessFlags2::COLOR_ATTACHMENT_WRITE
        | vk::AccessFlags2::DEPTH_STENCIL_ATTACHMENT_WRITE
        | vk::AccessFlags2::TRANSFER_WRITE
        | vk::AccessFlags2::SHADER_WRITE
        | vk::AccessFlags2::MEMORY_WRITE;
    assert_eq!(WRITE_ACCESS, writes.as_raw());
}

#[test]
fn formats_and_the_rest_are_the_numbers_of_the_gpu_api() {
    assert_eq!(FORMAT_UNDEFINED, vk::Format::UNDEFINED.as_raw());
    assert_eq!(FORMAT_B8G8R8A8_UNORM, vk::Format::B8G8R8A8_UNORM.as_raw());
    assert_eq!(FORMAT_B8G8R8A8_SRGB, vk::Format::B8G8R8A8_SRGB.as_raw());
    assert_eq!(FORMAT_R16G16B16A16_SFLOAT, vk::Format::R16G16B16A16_SFLOAT.as_raw());
    assert_eq!(FORMAT_D16_UNORM, vk::Format::D16_UNORM.as_raw());
    assert_eq!(FORMAT_D32_SFLOAT, vk::Format::D32_SFLOAT.as_raw());
    assert_eq!(FORMAT_D24_UNORM_S8_UINT, vk::Format::D24_UNORM_S8_UINT.as_raw());
    assert_eq!(FORMAT_D32_SFLOAT_S8_UINT, vk::Format::D32_SFLOAT_S8_UINT.as_raw());

    assert_eq!(IMAGE_ASPECT_COLOR, vk::ImageAspectFlags::COLOR.as_raw());
    assert_eq!(IMAGE_ASPECT_DEPTH, vk::ImageAspectFlags::DEPTH.as_raw());
    assert_eq!(IMAGE_ASPECT_STENCIL, vk::ImageAspectFlags::STENCIL.as_raw());
    assert_eq!(
        IMAGE_ASPECT_DEPTH_STENCIL,
        (vk::ImageAspectFlags::DEPTH | vk::ImageAspectFlags::STENCIL).as_raw()
    );
    assert_eq!(IMAGE_USAGE_SAMPLED, vk::ImageUsageFlags::SAMPLED.as_raw());
    assert_eq!(IMAGE_USAGE_COLOR_ATTACHMENT, vk::ImageUsageFlags::COLOR_ATTACHMENT.as_raw());
    assert_eq!(
        IMAGE_USAGE_DEPTH_STENCIL_ATTACHMENT,
        vk::ImageUsageFlags::DEPTH_STENCIL_ATTACHMENT.as_raw()
    );
    assert_eq!(SAMPLE_COUNT_1, vk::SampleCountFlags::TYPE_1.as_raw());
    assert_eq!(IMAGE_VIEW_TYPE_2D, vk::ImageViewType::TYPE_2D.as_raw());
    assert_eq!(IMAGE_VIEW_TYPE_2D_ARRAY, vk::ImageViewType::TYPE_2D_ARRAY.as_raw());
    assert_eq!(PRIMITIVE_TOPOLOGY_TRIANGLE_LIST, vk::PrimitiveTopology::TRIANGLE_LIST.as_raw());
    assert_eq!(PRESENT_MODE_IMMEDIATE, vk::PresentModeKHR::IMMEDIATE.as_raw());
    assert_eq!(PRESENT_MODE_MAILBOX, vk::PresentModeKHR::MAILBOX.as_raw());
    assert_eq!(PRESENT_MODE_FIFO, vk::PresentModeKHR::FIFO.as_raw());
    assert_eq!(COLOR_SPACE_SRGB_NONLINEAR, vk::ColorSpaceKHR::SRGB_NONLINEAR.as_raw());
}
