//! What a finished canvas hands to its writers: the map text, the image file
//! and the descriptor.

use vstd::prelude::*;
use vstd::string::StringExecFns;
use crate::atlas::Atlas;
use crate::error::OmError;
use crate::pixels::image_height;
use crate::pixels::image_width;
use crate::pixels::png_encoding;
use crate::pixels::write_png;
use crate::text::map_line_string;
use crate::text::map_text;

verus! {

/// The image file, or the error that stands for an encoding that failed.
pub fn png_or_error(encoded: Option<Vec<u8>>) -> (r: Result<Vec<u8>, OmError>)
    ensures
        r == match encoded {
            Some(bytes) => Ok::<Vec<u8>, OmError>(bytes),
            None => Err::<Vec<u8>, OmError>(OmError::Io),
        },
{
    match encoded {
        Some(bytes) => Ok(bytes),
        None => Err(OmError::Io),
    }
}

impl Atlas {
    /// The map text: one line per placed entry, in placement order. An entry
    /// stands under the file name of its path; a path without one, such as
    /// the empty path or one that ends in `..`, gives a line that starts at
    /// the colon.
    pub fn encode_map(&self) -> (text: String)
        ensures
            text@ == map_text(self.placements()),
    {
        let mut text = String::new();
        let n = self.entries.len();
        let mut k: usize = 0;
        while k < n
            invariant
                n == self.entries@.len(),
                k <= n,
                text@ == map_text(self.placements().take(k as int)),
            decreases n - k,
        {
            let e = &self.entries[k];
            proof {
                assert(self.placements().take(k + 1).drop_last() =~= self.placements().take(
                    k as int,
                ));
                assert(self.placements().take(k + 1).last() == e@);
            }
            let line = map_line_string(e.filename.as_str(), e.x, e.y, e.width, e.height);
            text.append(line.as_str());
            k = k + 1;
        }
        proof {
            assert(self.placements().take(n as int) =~= self.placements());
        }
        text
    }

    /// The image file of the canvas, as PNG; the I/O error where the canvas
    /// cannot be encoded, as a canvas of side zero cannot.
    pub fn encode_image(&self) -> (r: Result<Vec<u8>, OmError>)
        ensures
            match r {
                Ok(bytes) => png_encoding(self.image) == Some(bytes@),
                Err(e) => e == OmError::Io && png_encoding(self.image) is None,
            },
            image_width(self.image) == 0 || image_height(self.image) == 0 ==> r == Err::<
                Vec<u8>,
                OmError,
            >(OmError::Io),
            self.wf() && self.size == 0 ==> r == Err::<Vec<u8>, OmError>(OmError::Io),
    {
        png_or_error(write_png(&self.image))
    }

    /// The descriptor of the canvas. Its format is not defined yet: it is
    /// empty.
    pub fn encode_descriptor(&self) -> (bytes: Vec<u8>)
        ensures
            bytes@ == Seq::<u8>::empty(),
    {
        Vec::new()
    }
}

} // verus!
