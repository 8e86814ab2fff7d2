//! The filter pipeline builder: filter command templates rendered over a
//! fixed field context into an ordered command list plus a content type.
//!
//! A filter that renders to whitespace is elided. The content type starts
//! as `video/MP2T`; a filter added with its own content type overrides it
//! when that filter really joins the pipeline, so the filters added last —
//! the post filters — win.

use vstd::prelude::*;

use crate::errors::Error;
use crate::template::fields_view;
use crate::template::template_safe;
use crate::template::render_of;
use crate::template::render_template;
use crate::tuner_manager::is_blank;

verus! {

/// What a template renders to under this builder's fields, folded with
/// the blank rule: the command to append, nothing for a blank render, or
/// no reading at all.
pub open spec fn spec_filter_render(
    template: Seq<char>,
    fields: Seq<(Seq<char>, Seq<char>)>,
) -> Option<Seq<char>> {
    if template_safe(template) {
        render_of(template, fields)
    } else {
        None
    }
}

/// Builds one filter pipeline: the rendering context, the commands so
/// far, and the content type the response will carry.
pub struct FilterPipelineBuilder {
    pub fields: Vec<(String, String)>,
    pub filters: Vec<String>,
    pub content_type: String,
}

impl FilterPipelineBuilder {
    /// A builder over the given context, with no filters yet and the
    /// default content type `video/MP2T`.
    pub fn new(fields: Vec<(String, String)>) -> (r: FilterPipelineBuilder)
        ensures
            r.fields == fields,
            r.filters@.len() == 0,
            r.content_type@ == "video/MP2T"@,
    {
        FilterPipelineBuilder {
            fields,
            filters: Vec::new(),
            content_type: String::from_str("video/MP2T"),
        }
    }

    /// Renders one filter template and appends it, unless it renders to
    /// whitespace. Fails with `InvalidFilter` exactly when the template
    /// has no reading.
    pub fn add_filter(&mut self, template: &str) -> (r: Result<(), Error>)
        ensures
            final(self).fields == old(self).fields,
            final(self).content_type == old(self).content_type,
            match r {
                Ok(_) => {
                    &&& spec_filter_render(template@, fields_view(old(self).fields@))
                        matches Some(cmd) && (if is_blank(cmd) {
                        final(self).filters == old(self).filters
                    } else {
                        final(self).filters@.len() == old(self).filters@.len() + 1
                            && final(self).filters@.last()@ == cmd && (forall|i: int|
                            0 <= i < old(self).filters@.len() ==> final(self).filters@[i] == old(
                                self,
                            ).filters@[i])
                    })
                },
                Err(e) => {
                    &&& e == Error::InvalidFilter
                    &&& spec_filter_render(template@, fields_view(old(self).fields@)) is None
                    &&& final(self).filters == old(self).filters
                },
            },
    {
        match render_template(template, &self.fields) {
            None => Err(Error::InvalidFilter),
            Some(rendered) => {
                if !crate::tuner_manager::string_is_blank(&rendered) {
                    self.filters.push(rendered);
                }
                Ok(())
            },
        }
    }

    /// Like `add_filter`, but when the filter joins the pipeline it also
    /// sets the content type the stream will be served under.
    pub fn add_filter_with_content_type(&mut self, template: &str, content_type: String) -> (r:
        Result<(), Error>)
        ensures
            final(self).fields == old(self).fields,
            match r {
                Ok(_) => {
                    &&& spec_filter_render(template@, fields_view(old(self).fields@))
                        matches Some(cmd) && (if is_blank(cmd) {
                        final(self).filters == old(self).filters && final(self).content_type
                            == old(self).content_type
                    } else {
                        final(self).filters@.len() == old(self).filters@.len() + 1
                            && final(self).filters@.last()@ == cmd && (forall|i: int|
                            0 <= i < old(self).filters@.len() ==> final(self).filters@[i] == old(
                                self,
                            ).filters@[i]) && final(self).content_type == content_type
                    })
                },
                Err(e) => {
                    &&& e == Error::InvalidFilter
                    &&& spec_filter_render(template@, fields_view(old(self).fields@)) is None
                    &&& final(self).filters == old(self).filters
                    &&& final(self).content_type == old(self).content_type
                },
            },
    {
        match render_template(template, &self.fields) {
            None => Err(Error::InvalidFilter),
            Some(rendered) => {
                if !crate::tuner_manager::string_is_blank(&rendered) {
                    self.filters.push(rendered);
                    self.content_type = content_type;
                }
                Ok(())
            },
        }
    }

    /// Hands out the ordered filter commands and the content type.
    pub fn build(self) -> (r: (Vec<String>, String))
        ensures
            r.0 == self.filters,
            r.1 == self.content_type,
    {
        (self.filters, self.content_type)
    }
}

} // verus!
