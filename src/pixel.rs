//! Reduction of one RGBA pixel to a single brightness byte.
use vstd::prelude::*;

verus! {

/// Number of bytes that make up one pixel: red, green, blue and alpha.
pub const CHANNELS: usize = 4;

/// Sum of the four channels of the pixel that starts at byte `at`.
pub open spec fn channel_sum(data: Seq<u8>, at: int) -> int {
    data[at] + data[at + 1] + data[at + 2] + data[at + 3]
}

/// Brightness of a pixel whose channels add up to `sum`: the sum less one full
/// alpha channel, divided by four, and zero where the sum is below one full
/// channel.
pub open spec fn brightness_of_sum(sum: int) -> u8 {
    if sum < 255 {
        0
    } else {
        ((sum - 255) / 4) as u8
    }
}

/// Brightness of the pixel that starts at byte `at`.
pub open spec fn brightness_at(data: Seq<u8>, at: int) -> u8 {
    brightness_of_sum(channel_sum(data, at))
}

/// One brightness value per whole pixel of `data`, in order.
pub open spec fn brightness_seq(data: Seq<u8>) -> Seq<u8> {
    Seq::new(data.len() / 4, |i: int| brightness_at(data, 4 * i))
}

/// Reduces the pixel that starts at byte `index` to its brightness.
pub fn read_pixel(image_data: &Vec<u8>, index: usize) -> (r: u8)
    requires
        index + CHANNELS <= image_data@.len(),
    ensures
        r == brightness_at(image_data@, index as int),
        r <= 191,
{
    let len: usize = image_data.len();
    let end: usize = index + CHANNELS;
    let mut pixel: usize = 0;
    let mut element: usize = index;
    while element < end
        invariant
            end == index + CHANNELS,
            len == image_data@.len(),
            index <= element <= index + CHANNELS,
            index + CHANNELS <= image_data@.len(),
            pixel <= 255 * (element - index),
            pixel + (if element <= index { image_data@[index as int] as int } else { 0 })
                + (if element <= index + 1 { image_data@[index + 1] as int } else { 0 })
                + (if element <= index + 2 { image_data@[index + 2] as int } else { 0 })
                + (if element <= index + 3 { image_data@[index + 3] as int } else { 0 })
                == channel_sum(image_data@, index as int),
        decreases end - element,
    {
        pixel = pixel + image_data[element] as usize;
        element = element + 1;
    }
    if pixel < 255 {
        0
    } else {
        ((pixel - 255) / 4) as u8
    }
}

/// Reduces every whole pixel of `image_data` to its brightness.
pub fn reduce_pixels(image_data: &Vec<u8>) -> (r: Vec<u8>)
    ensures
        r@ == brightness_seq(image_data@),
{
    let mut out: Vec<u8> = Vec::new();
    let mut index: usize = 0;
    let len: usize = image_data.len();
    let count: usize = len / CHANNELS;
    while out.len() < count
        invariant
            len == image_data@.len(),
            count == image_data@.len() / 4,
            index == CHANNELS * out@.len(),
            out@.len() <= count,
            forall|i: int| 0 <= i < out@.len() ==> out@[i] == brightness_at(image_data@, 4 * i),
        decreases count - out@.len(),
    {
        out.push(read_pixel(image_data, index));
        index = index + CHANNELS;
    }
    assert(out@ =~= brightness_seq(image_data@));
    out
}

} // verus!
