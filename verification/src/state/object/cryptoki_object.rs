//! Key objects: a class tag, the attributes the object was created with, and
//! the raw key material once it has been stored.
use vstd::prelude::*;

use crate::cryptoki::bindings::CK_ATTRIBUTE_TYPE;
use crate::error::CryptokiError;
use crate::state::object::template::{last_value, AttributeView, Template};

verus! {

/// The class of a key object.
#[derive(Clone, Copy, Debug, PartialEq, Eq, Structural)]
pub enum ObjectClass {
    SecretKey,
    PrivateKey,
    PublicKey,
}

/// A key object as contracts see it.
#[verifier::ext_equal]
pub ghost struct ObjectView {
    /// The class the object was created with.
    pub class: ObjectClass,
    /// The attributes of the template the object was created from.
    pub attributes: Seq<AttributeView>,
    /// The key material, once stored.
    pub value: Option<Seq<u8>>,
}

/// A key object of the token.
pub struct CryptokiObject {
    class: ObjectClass,
    template: Template,
    value: Option<Vec<u8>>,
}

impl ObjectView {
    /// The object of class `class` without attributes and without key
    /// material.
    pub open spec fn blank(class: ObjectClass) -> ObjectView {
        ObjectView { class, attributes: Seq::empty(), value: None }
    }
}

impl View for CryptokiObject {
    type V = ObjectView;

    closed spec fn view(&self) -> ObjectView {
        ObjectView {
            class: self.class,
            attributes: self.template@,
            value: match self.value {
                Some(bytes) => Some(bytes@),
                None => None,
            },
        }
    }
}

impl CryptokiObject {
    /// The attributes hold no kind twice.
    pub closed spec fn wf(&self) -> bool {
        self.template.wf()
    }

    /// An object of class `class` without attributes and without key
    /// material.
    pub fn new(class: ObjectClass) -> (object: CryptokiObject)
        ensures
            object.wf(),
            object@ == ObjectView::blank(class),
    {
        CryptokiObject { class, template: Template::new(), value: None }
    }

    /// An object of class `class` with the attributes of `template` and
    /// without key material.
    pub fn from_template(class: ObjectClass, template: Template) -> (object: CryptokiObject)
        requires
            template.wf(),
        ensures
            object.wf(),
            object@ == (ObjectView { class, attributes: template@, value: None }),
    {
        CryptokiObject { class, template, value: None }
    }

    /// Stores the key material, in place of any stored before.
    pub fn store_value(&mut self, value: Vec<u8>)
        requires
            old(self).wf(),
        ensures
            final(self).wf(),
            final(self)@ == (ObjectView { value: Some(value@), ..old(self)@ }),
    {
        self.value = Some(value);
    }

    /// The key material, or `ValueNotPresent` before any was stored.
    pub fn get_value(&self) -> (value: Result<&Vec<u8>, CryptokiError>)
        ensures
            match value {
                Ok(bytes) => self@.value == Some(bytes@),
                Err(e) => e == CryptokiError::ValueNotPresent && self@.value is None,
            },
    {
        match &self.value {
            Some(bytes) => Ok(bytes),
            None => Err(CryptokiError::ValueNotPresent),
        }
    }

    /// The class of the object.
    pub fn class(&self) -> (class: ObjectClass)
        ensures
            class == self@.class,
    {
        self.class
    }

    /// The value of the attribute of kind `kind`, if the object has one.
    pub fn get_attribute(&self, kind: CK_ATTRIBUTE_TYPE) -> (value: Option<&Vec<u8>>)
        requires
            self.wf(),
        ensures
            match value {
                Some(bytes) => last_value(self@.attributes, kind) == Some(bytes@),
                None => last_value(self@.attributes, kind) is None,
            },
    {
        self.template.get(kind)
    }
}

} // verus!
